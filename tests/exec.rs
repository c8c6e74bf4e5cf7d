use remote_ldr::exec::{shutdown_result, ExecutionController, ExitPoll, ProcessError, ProcessHandle};

/// A stand-in for a child process: `sleep` runs until it is killed, `false`
/// exits with 1, anything else exits with 0 at once.
#[derive(Debug)]
struct SimProcess {
    running: bool,
    code: Option<i32>,
    refuse_kill: bool,
}

impl SimProcess {
    fn launch(binary: &str, _args: &[&str]) -> SimProcess {
        match binary {
            "sleep" => SimProcess { running: true, code: Some(0), refuse_kill: false },
            "false" => SimProcess { running: false, code: Some(1), refuse_kill: false },
            _ => SimProcess { running: false, code: Some(0), refuse_kill: false },
        }
    }
}

impl ProcessHandle for SimProcess {
    fn kill(&mut self) -> Result<(), ()> {
        if self.refuse_kill {
            return Err(());
        }
        self.running = false;
        self.code = None;
        Ok(())
    }

    fn try_wait(&mut self) -> Result<ExitPoll, ()> {
        if self.running {
            Ok(ExitPoll::StillRunning)
        } else {
            Ok(ExitPoll::Exited(self.code))
        }
    }

    fn wait(&mut self) -> Result<Option<i32>, ()> {
        self.running = false;
        Ok(self.code)
    }
}

fn spawn(
    controller: &mut ExecutionController<SimProcess>,
    id: u32,
    binary: &str,
    args: &[&str],
) -> u32 {
    assert!(!controller.contains(id));
    controller.add_process(id, SimProcess::launch(binary, args));
    id
}

#[test]
fn test_spawn_process() {
    let mut controller = ExecutionController::new();
    let process_id = spawn(&mut controller, 100, "ls", &["-l"]);
    let code = controller.wait_for_process(process_id).unwrap();
    assert!(controller.processes.is_empty());
    assert_eq!(code, Some(0));
}

#[test]
fn test_kill_process() {
    let mut controller = ExecutionController::new();
    let process_id = spawn(&mut controller, 200, "sleep", &["1000"]);
    controller.kill_process(process_id).unwrap();
    assert!(controller.processes.is_empty());
}

#[test]
fn test_kill_all() {
    let mut controller = ExecutionController::new();
    spawn(&mut controller, 300, "sleep", &["1000"]);
    spawn(&mut controller, 301, "sleep", &["1000"]);
    controller.kill_all().unwrap();
    assert!(controller.processes.is_empty());
}

#[test]
fn sleep_polls_running_then_waits_to_zero() {
    let mut controller = ExecutionController::new();
    let x = spawn(&mut controller, 7, "sleep", &["1"]);
    assert_eq!(controller.get_exit_code(x), Ok(ExitPoll::StillRunning));
    assert!(controller.contains(x));
    assert_eq!(controller.wait_for_process(x), Ok(Some(0)));
    assert!(!controller.contains(x));
}

#[test]
fn false_exits_non_zero_and_leaves_table() {
    let mut controller = ExecutionController::new();
    let id = spawn(&mut controller, 8, "false", &[]);
    let code = controller.wait_for_process(id).unwrap();
    assert!(code.is_some() && code != Some(0));
    assert!(!controller.contains(id));
}

#[test]
fn kill_then_wait_is_not_found() {
    let mut controller = ExecutionController::new();
    let y = spawn(&mut controller, 9, "sleep", &["1000"]);
    assert_eq!(controller.kill_process(y), Ok(()));
    assert_eq!(controller.wait_for_process(y), Err(ProcessError::ProcessNotFound));
    assert_eq!(controller.get_exit_code(y), Err(ProcessError::ProcessNotFound));
}

#[test]
fn spawned_id_present_until_reaped() {
    let mut controller = ExecutionController::new();
    let a = spawn(&mut controller, 1, "sleep", &["5"]);
    let b = spawn(&mut controller, 2, "true", &[]);
    assert!(controller.contains(a) && controller.contains(b));
    assert_eq!(controller.get_exit_code(b), Ok(ExitPoll::Exited(Some(0))));
    assert!(controller.contains(a));
    assert!(!controller.contains(b));
    assert_eq!(controller.processes.len(), 1);
}

#[test]
fn poll_of_killed_process_reports_no_code() {
    let mut controller = ExecutionController::new();
    let mut p = SimProcess::launch("sleep", &["5"]);
    p.kill().unwrap();
    controller.add_process(4, p);
    assert_eq!(controller.get_exit_code(4), Ok(ExitPoll::Exited(None)));
    assert!(controller.processes.is_empty());
}

#[test]
fn failed_kill_keeps_entry() {
    let mut controller = ExecutionController::new();
    let mut p = SimProcess::launch("sleep", &["1000"]);
    p.refuse_kill = true;
    controller.add_process(5, p);
    spawn(&mut controller, 6, "sleep", &["1000"]);
    assert_eq!(controller.kill_process(5), Err(ProcessError::KillFailure));
    assert!(controller.contains(5));
    assert_eq!(controller.processes[0].0, 5);
    assert_eq!(controller.kill_all(), Err(vec![5]));
    assert!(controller.processes.is_empty());
}

#[test]
fn unknown_id_is_not_found() {
    let mut controller: ExecutionController<SimProcess> = ExecutionController::new();
    assert_eq!(controller.kill_process(42), Err(ProcessError::ProcessNotFound));
    assert!(controller.remove_process(42).is_err());
    assert_eq!(controller.kill_all(), Ok(()));
}

#[test]
fn settle_functions_follow_the_host_answer() {
    let mut controller = ExecutionController::new();
    spawn(&mut controller, 10, "sleep", &["5"]);
    let entry = (11, SimProcess::launch("sleep", &["5"]));
    assert_eq!(controller.settle_poll(0, entry, Ok(ExitPoll::StillRunning)), Ok(ExitPoll::StillRunning));
    assert_eq!(controller.processes.iter().map(|e| e.0).collect::<Vec<_>>(), vec![11, 10]);
    let (id, h) = controller.processes.remove(0);
    assert_eq!(controller.settle_poll(0, (id, h), Ok(ExitPoll::Exited(Some(3)))), Ok(ExitPoll::Exited(Some(3))));
    assert_eq!(controller.processes.len(), 1);
    let (id, h) = controller.processes.remove(0);
    assert_eq!(controller.settle_poll(0, (id, h), Err(())), Err(ProcessError::IoFailure));
    assert!(controller.contains(10));
    let (id, h) = controller.processes.remove(0);
    assert_eq!(controller.settle_kill(0, (id, h), Err(())), Err(ProcessError::KillFailure));
    assert!(controller.contains(10));
    let (id, h) = controller.processes.remove(0);
    assert_eq!(controller.settle_wait(0, (id, h), Err(())), Err(ProcessError::IoFailure));
    assert!(controller.contains(10));
    let (id, h) = controller.processes.remove(0);
    assert_eq!(controller.settle_wait(0, (id, h), Ok(Some(2))), Ok(Some(2)));
    assert!(controller.processes.is_empty());
    let h = SimProcess::launch("sleep", &["5"]);
    assert_eq!(controller.settle_kill(0, (12, h), Ok(())), Ok(()));
    assert!(controller.processes.is_empty());
}

#[test]
fn shutdown_report_lists_failed_ids_in_order() {
    assert_eq!(shutdown_result(&vec![(1, true), (2, true)]), Ok(()));
    assert_eq!(shutdown_result(&vec![]), Ok(()));
    assert_eq!(shutdown_result(&vec![(3, false), (1, true), (2, false)]), Err(vec![3, 2]));
}

#[test]
fn record_spawned_refuses_a_duplicate_id() {
    let mut controller = ExecutionController::new();
    assert!(controller.record_spawned(20, SimProcess::launch("sleep", &["5"])).is_ok());
    match controller.record_spawned(20, SimProcess::launch("true", &[])) {
        Err(h) => assert!(!h.running),
        Ok(_) => panic!("duplicate id recorded"),
    }
    assert_eq!(controller.processes.len(), 1);
    assert!(controller.processes[0].1.running);
}
