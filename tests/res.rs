use remote_ldr::res::{join_path, parent_component, within_root, Removal, ResourceError, ResourceManager};

fn manager() -> ResourceManager {
    ResourceManager::new("/srv/remoteldr".to_string())
}

#[test]
fn write_target_of_new_nested_file() {
    let rm = manager();
    assert_eq!(rm.join_path_secure("a/b.txt", None), Ok("/srv/remoteldr/a/b.txt".to_string()));
}

#[test]
fn read_after_write_opens_written_file() {
    let rm = manager();
    let written = rm.join_path_secure("a/b.txt", None).unwrap();
    let canonical = rm.candidate_path("a/b.txt");
    assert_eq!(canonical, written);
    assert_eq!(rm.read_target("a/b.txt", Some(canonical)), Ok(written));
}

#[test]
fn escape_by_parent_component_is_rejected() {
    let rm = manager();
    assert_eq!(rm.join_path_secure("../escape.txt", None), Err(ResourceError::TraversalRejected));
    assert_eq!(rm.join_path_secure("a/../../x", None), Err(ResourceError::TraversalRejected));
    assert_eq!(rm.join_path_secure("a/..", None), Err(ResourceError::TraversalRejected));
}

#[test]
fn dots_inside_a_name_are_not_a_parent_component() {
    assert!(!parent_component("a..b/c"));
    assert!(!parent_component("...x"));
    assert!(parent_component(".."));
    assert!(parent_component("x/../y"));
    let rm = manager();
    assert_eq!(rm.join_path_secure("a..b", None), Ok("/srv/remoteldr/a..b".to_string()));
}

#[test]
fn existing_target_outside_root_is_rejected() {
    let rm = manager();
    assert_eq!(
        rm.join_path_secure("link", Some("/etc/passwd".to_string())),
        Err(ResourceError::TraversalRejected)
    );
    assert_eq!(
        rm.join_path_secure("link", Some("/srv/remoteldr2/x".to_string())),
        Err(ResourceError::TraversalRejected)
    );
    assert_eq!(
        rm.join_path_secure("sub/../f", Some("/srv/remoteldr/f".to_string())),
        Ok("/srv/remoteldr/f".to_string())
    );
    assert_eq!(rm.join_path_secure("", Some("/srv/remoteldr".to_string())), Ok("/srv/remoteldr".to_string()));
}

#[test]
fn leading_separator_stays_under_root() {
    let rm = manager();
    assert_eq!(rm.candidate_path("/etc/passwd"), "/srv/remoteldr//etc/passwd".to_string());
    assert_eq!(join_path("/", "a"), "/a".to_string());
    assert!(within_root("/", "/anything"));
    assert!(within_root("/srv", "/srv"));
    assert!(!within_root("/srv", "/srvx"));
    assert!(!within_root("/srv/a", "/srv"));
}

#[test]
fn read_of_missing_file_is_not_found() {
    let mut rm = manager();
    rm.set_working_dir("/tmp/root".to_string());
    assert_eq!(rm.get_working_dir(), &"/tmp/root".to_string());
    assert_eq!(rm.read_target("a/b.txt", None), Err(ResourceError::NotFound));
    assert_eq!(rm.read_target("../b.txt", None), Err(ResourceError::TraversalRejected));
}

#[test]
fn delete_actions() {
    let rm = manager();
    assert_eq!(rm.delete_action("gone", None, false), Err(ResourceError::NotFound));
    assert_eq!(
        rm.delete_action("dir", Some("/srv/remoteldr/dir".to_string()), true),
        Ok(Removal::Tree("/srv/remoteldr/dir".to_string()))
    );
    assert_eq!(
        rm.delete_action("f.txt", Some("/srv/remoteldr/f.txt".to_string()), false),
        Ok(Removal::File("/srv/remoteldr/f.txt".to_string()))
    );
    assert_eq!(rm.delete_action("../x", None, false), Err(ResourceError::TraversalRejected));
    assert_eq!(
        rm.delete_action("x", Some("/other".to_string()), true),
        Err(ResourceError::TraversalRejected)
    );
}
