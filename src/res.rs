//! Sandboxed file access: caller paths are resolved against a root
//! directory, and every resolution that is accepted lies at or beneath it.
use vstd::prelude::*;

verus! {

/// Why a resource operation was refused.
#[derive(Debug, Clone, Copy, PartialEq, Eq, Structural)]
pub enum ResourceError {
    /// The path does not name an existing file or directory.
    NotFound,
    /// The path would leave the sandbox root.
    TraversalRejected,
    /// The filesystem refused the operation.
    IoFailure,
}

/// `..` stands as a whole component of `s` at position `i`.
pub open spec fn is_parent_at(s: Seq<char>, i: int) -> bool {
    &&& 0 <= i
    &&& i + 2 <= s.len()
    &&& s[i] == '.'
    &&& s[i + 1] == '.'
    &&& (i == 0 || s[i - 1] == '/')
    &&& (i + 2 == s.len() || s[i + 2] == '/')
}

/// Some component of the path `s` is `..`.
pub open spec fn has_parent_component(s: Seq<char>) -> bool {
    exists|i: int| is_parent_at(s, i)
}

/// The syntactic join of a root directory and a caller's path. A leading
/// separator in the caller's path does not make it absolute: it stays under
/// the root.
pub open spec fn joined(root: Seq<char>, rel: Seq<char>) -> Seq<char> {
    if root.len() > 0 && root.last() == '/' {
        root + rel
    } else {
        root + seq!['/'] + rel
    }
}

/// `p` is `root` or a path beneath it, compared by whole components.
pub open spec fn is_within(root: Seq<char>, p: Seq<char>) -> bool {
    &&& root.len() <= p.len()
    &&& p.subrange(0, root.len() as int) == root
    &&& (p.len() == root.len() || (root.len() > 0 && root.last() == '/') || p[root.len() as int] == '/')
}

/// `p` is an absolute path.
pub open spec fn is_absolute(p: Seq<char>) -> bool {
    p.len() > 0 && p[0] == '/'
}

/// The join of a root and any caller path lies beneath the root.
pub proof fn lemma_joined_within(root: Seq<char>, rel: Seq<char>)
    ensures
        is_within(root, joined(root, rel)),
{
    let j = joined(root, rel);
    if root.len() > 0 && root.last() == '/' {
        assert(j.subrange(0, root.len() as int) =~= root);
    } else {
        assert(j.subrange(0, root.len() as int) =~= root);
        assert(j[root.len() as int] == '/');
    }
}

pub open spec fn opt_view(o: Option<String>) -> Option<Seq<char>> {
    match o {
        Some(s) => Some(s@),
        None => None,
    }
}

pub open spec fn result_view<T: View>(r: Result<T, ResourceError>) -> Result<T::V, ResourceError> {
    match r {
        Ok(t) => Ok(t@),
        Err(e) => Err(e),
    }
}

/// Where a caller's path resolves, given `found`: the canonical form of the
/// joined candidate when it exists on disk, `None` when it does not.
pub open spec fn resolution(root: Seq<char>, rel: Seq<char>, found: Option<Seq<char>>) -> Result<
    Seq<char>,
    ResourceError,
> {
    match found {
        Some(c) => if is_within(root, c) {
            Ok(c)
        } else {
            Err(ResourceError::TraversalRejected)
        },
        None => if has_parent_component(rel) {
            Err(ResourceError::TraversalRejected)
        } else {
            Ok(joined(root, rel))
        },
    }
}

/// Decides whether `s` holds a `..` component.
pub fn parent_component(s: &str) -> (r: bool)
    ensures
        r == has_parent_component(s@),
{
    let n = s.unicode_len();
    let mut i: usize = 0;
    while i < n
        invariant
            n == s@.len(),
            i <= n,
            forall|j: int| 0 <= j < i ==> !is_parent_at(s@, j),
        decreases n - i,
    {
        if i + 1 < n && s.get_char(i) == '.' && s.get_char(i + 1) == '.' && (i == 0 || s.get_char(i - 1) == '/')
            && (i + 2 == n || s.get_char(i + 2) == '/') {
            assert(is_parent_at(s@, i as int));
            return true;
        }
        i = i + 1;
    }
    assert forall|j: int| !is_parent_at(s@, j) by {
        if 0 <= j < i {
        }
    }
    false
}

/// Decides whether `p` is `root` or lies beneath it.
pub fn within_root(root: &str, p: &str) -> (r: bool)
    ensures
        r == is_within(root@, p@),
{
    let rn = root.unicode_len();
    let pn = p.unicode_len();
    if rn > pn {
        return false;
    }
    let mut i: usize = 0;
    while i < rn
        invariant
            rn == root@.len(),
            pn == p@.len(),
            rn <= pn,
            i <= rn,
            forall|j: int| 0 <= j < i ==> p@[j] == root@[j],
        decreases rn - i,
    {
        if p.get_char(i) != root.get_char(i) {
            assert(p@.subrange(0, rn as int)[i as int] != root@[i as int]);
            return false;
        }
        i = i + 1;
    }
    assert(p@.subrange(0, rn as int) =~= root@);
    pn == rn || (rn > 0 && root.get_char(rn - 1) == '/') || p.get_char(rn) == '/'
}

/// Joins a caller's path onto a root directory.
pub fn join_path(root: &str, rel: &str) -> (r: String)
    ensures
        r@ == joined(root@, rel@),
{
    let rn = root.unicode_len();
    let mut out = String::from_str(root);
    if !(rn > 0 && root.get_char(rn - 1) == '/') {
        out.append("/");
        proof {
            reveal_strlit("/");
        }
    }
    out.append(rel);
    proof {
        if rn > 0 && root@.last() == '/' {
        } else {
            assert(out@ =~= root@ + seq!['/'] + rel@);
        }
    }
    out
}

/// What a read of a caller's path comes to: its resolution, or `NotFound`
/// when the resolved target does not exist.
pub open spec fn read_resolution(root: Seq<char>, rel: Seq<char>, found: Option<Seq<char>>) -> Result<
    Seq<char>,
    ResourceError,
> {
    match resolution(root, rel, found) {
        Ok(t) => if found is None {
            Err(ResourceError::NotFound)
        } else {
            Ok(t)
        },
        Err(e) => Err(e),
    }
}


/// Once the candidate of a path exists, a read of the path opens exactly
/// the file that a write of it resolves to, and that is the canonical
/// candidate itself.
pub proof fn lemma_write_then_read_same_target(root: Seq<char>, rel: Seq<char>, found: Seq<char>)
    requires
        resolution(root, rel, Some(found)) is Ok,
    ensures
        read_resolution(root, rel, Some(found)) == resolution(root, rel, Some(found)),
        read_resolution(root, rel, Some(found)) == Ok::<Seq<char>, ResourceError>(found),
{
}

/// How an existing target is removed.
#[derive(Debug, Clone, PartialEq, Eq)]
pub enum Removal {
    /// A directory, removed with everything beneath it.
    Tree(String),
    /// A single file.
    File(String),
}

/// The removal that a delete of `rel` comes to, as a path and whether the
/// whole subtree goes.
pub open spec fn delete_resolution(
    root: Seq<char>,
    rel: Seq<char>,
    found: Option<Seq<char>>,
    is_dir: bool,
) -> Result<(Seq<char>, bool), ResourceError> {
    match read_resolution(root, rel, found) {
        Ok(t) => Ok((t, is_dir)),
        Err(e) => Err(e),
    }
}

pub open spec fn removal_view(r: Result<Removal, ResourceError>) -> Result<(Seq<char>, bool), ResourceError> {
    match r {
        Ok(Removal::Tree(t)) => Ok((t@, true)),
        Ok(Removal::File(t)) => Ok((t@, false)),
        Err(e) => Err(e),
    }
}

/// Resolves caller-supplied paths against a sandbox root directory.
///
/// The root is held in its canonical form, as the host's filesystem gives it.
/// The filesystem itself is probed by the caller: each resolution takes what
/// the probe found for the joined candidate path.
#[derive(Debug)]
pub struct ResourceManager {
    pub working_dir: String,
}

impl ResourceManager {
    /// The sandbox root is an absolute path.
    pub open spec fn wf(&self) -> bool {
        is_absolute(self.working_dir@)
    }

    /// A manager rooted at `working_dir`, a canonical directory path.
    pub fn new(working_dir: String) -> (r: Self)
        requires
            is_absolute(working_dir@),
        ensures
            r.wf(),
            r.working_dir@ == working_dir@,
    {
        ResourceManager { working_dir }
    }

    /// The sandbox root.
    pub fn get_working_dir(&self) -> (r: &String)
        ensures
            r@ == self.working_dir@,
    {
        &self.working_dir
    }

    /// Moves the sandbox root to `path`, a canonical directory path. What lay
    /// under the former root is left as it is.
    pub fn set_working_dir(&mut self, path: String)
        requires
            is_absolute(path@),
        ensures
            final(self).wf(),
            final(self).working_dir@ == path@,
    {
        self.working_dir = path;
    }

    /// The candidate that `path` names: the root joined with it, before any
    /// check. This is the path whose existence and canonical form the caller
    /// probes.
    pub fn candidate_path(&self, path: &str) -> (r: String)
        requires
            self.wf(),
        ensures
            r@ == joined(self.working_dir@, path@),
    {
        join_path(self.working_dir.as_str(), path)
    }

    /// Resolves `path`, given `found`: the canonical form of the candidate
    /// when it exists, `None` when it does not.
    ///
    /// An existing target is accepted only when its canonical form lies at or
    /// beneath the root. A target that does not exist yet is accepted as the
    /// syntactic join, unless the path holds a `..` component.
    pub fn join_path_secure(&self, path: &str, found: Option<String>) -> (r: Result<String, ResourceError>)
        requires
            self.wf(),
        ensures
            r is Ok ==> is_within(self.working_dir@, r->Ok_0@),
            result_view(r) == resolution(self.working_dir@, path@, opt_view(found)),
            found is None && has_parent_component(path@) ==> r == Err::<String, ResourceError>(
                ResourceError::TraversalRejected,
            ),
    {
        match found {
            Some(c) => {
                if within_root(self.working_dir.as_str(), c.as_str()) {
                    Ok(c)
                } else {
                    Err(ResourceError::TraversalRejected)
                }
            },
            None => {
                if parent_component(path) {
                    Err(ResourceError::TraversalRejected)
                } else {
                    proof {
                        lemma_joined_within(self.working_dir@, path@);
                    }
                    Ok(self.candidate_path(path))
                }
            },
        }
    }

    /// The file that a read of `path` opens: its resolution, which must
    /// exist.
    pub fn read_target(&self, path: &str, found: Option<String>) -> (r: Result<String, ResourceError>)
        requires
            self.wf(),
        ensures
            r is Ok ==> is_within(self.working_dir@, r->Ok_0@),
            result_view(r) == read_resolution(self.working_dir@, path@, opt_view(found)),
    {
        let exists = found.is_some();
        match self.join_path_secure(path, found) {
            Ok(t) => if exists {
                Ok(t)
            } else {
                Err(ResourceError::NotFound)
            },
            Err(e) => Err(e),
        }
    }

    /// What a delete of `path` removes, given the probe `found` and whether
    /// the target is a directory: a directory goes with all of its contents,
    /// a file alone; a target that does not exist is `NotFound`.
    pub fn delete_action(&self, path: &str, found: Option<String>, is_dir: bool) -> (r: Result<
        Removal,
        ResourceError,
    >)
        requires
            self.wf(),
        ensures
            removal_view(r) == delete_resolution(self.working_dir@, path@, opt_view(found), is_dir),
            found is None && !has_parent_component(path@) ==> r == Err::<Removal, ResourceError>(
                ResourceError::NotFound,
            ),
            found is Some && is_dir ==> (r is Ok ==> r->Ok_0 is Tree),
    {
        match self.read_target(path, found) {
            Ok(t) => if is_dir {
                Ok(Removal::Tree(t))
            } else {
                Ok(Removal::File(t))
            },
            Err(e) => Err(e),
        }
    }
}

} // verus!
