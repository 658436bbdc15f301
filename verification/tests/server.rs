use conductor_agent::server::{
    captured_pipes, code_text, exit_events, stop_command, GracefulStage, RecoveryInput,
    RecoveryStep, ServerError, ServerEvent, ServerProcess, StopAction, StopStage,
};

type Process = ServerProcess<&'static str, &'static str>;

fn started() -> Process {
    let mut p = Process::new();
    p.started("child", "stdin", Some(4711));
    p
}

fn recovered(pid: i32) -> Process {
    let mut p = Process::new();
    assert_eq!(p.try_recover(RecoveryInput::Probe { pid, alive: true }), RecoveryStep::Done);
    p
}

// Carries a graceful stop to its end and tells what was done.
fn run(p: &mut Process, kill_works: bool, removal_works: bool) -> (Vec<String>, bool, u64) {
    let mut stage = GracefulStage::Begin;
    let mut ok = true;
    let mut done = Vec::new();
    let mut slept = 0;
    loop {
        let (next, action) = p.graceful_stop(stage, ok);
        stage = next;
        ok = true;
        match action {
            StopAction::Signal { pid, force } => done.push(format!("signal {pid} {force}")),
            StopAction::Sleep(n) => slept += n,
            StopAction::SendStop => done.push("stop".to_string()),
            StopAction::KillChild(c) => {
                done.push(format!("kill {c}"));
                ok = kill_works;
            }
            StopAction::RemovePidFile => {
                done.push("remove".to_string());
                ok = removal_works;
            }
            StopAction::Done => return (done, true, slept),
            StopAction::Fail => return (done, false, slept),
        }
    }
}

#[test]
fn new_process_is_not_running() {
    let p = Process::new();
    assert!(!p.is_running());
    assert_eq!(p.pid(), None);
    assert!(p.child().is_none());
    assert!(p.stdin().is_none());
    assert!(p.write_pid().is_none());
    assert_eq!(Process::pid_file_path(), "minecraft/server.pid");
}

#[test]
fn launch_separates_the_arguments() {
    let args = ["-Xms4G", "nogui", "-Dkey=1", "world", "-Xmx4G"];
    let plan = Process::new()
        .start("minecraft/server.jar", args.iter().map(|a| a.to_string()).collect(), None)
        .unwrap_or_else(|_| panic!("refused"));
    assert_eq!(plan.program, "java");
    assert_eq!(
        plan.args,
        ["-Xms4G", "-Dkey=1", "-Xmx4G", "-jar", "minecraft/server.jar", "nogui", "world"]
    );
    assert_eq!(plan.cwd, "minecraft");
}

#[test]
fn launch_falls_back_to_the_home_directory() {
    let cwd = |jar: &str, home: Option<&str>| {
        Process::new()
            .start(jar, vec![], home.map(|h| h.to_string()))
            .unwrap_or_else(|_| panic!("refused"))
            .cwd
    };
    assert_eq!(cwd("/", Some("/home/mc")), "/home/mc/conductor");
    assert_eq!(cwd("", None), "./conductor");
    assert_eq!(cwd("server.jar", Some("/home/mc")), "");
    assert_eq!(cwd("/server.jar", None), "/");
}

#[test]
fn second_launch_is_refused() {
    let refused = started().start("minecraft/server.jar", vec![], None).err().unwrap();
    assert_eq!(refused, ServerError::AlreadyRunning);
    assert_eq!(refused.message(), "Server is already running");
    assert!(recovered(7).start("minecraft/server.jar", vec![], None).is_err());
}

#[test]
fn ended_server_can_be_started_again() {
    let mut p = started();
    p.cleanup_on_exit();
    assert!(!p.is_running());
    assert!(p.start("minecraft/server.jar", vec![], None).is_ok());
}

#[test]
fn started_process_leaves_its_number() {
    let mut p = Process::new();
    let file = p.started("child", "stdin", Some(4711)).unwrap();
    assert_eq!(file.path, "minecraft/server.pid");
    assert_eq!(file.content, "4711");
    assert_eq!(p.pid(), Some(4711));
    assert!(p.is_running());
    assert!(Process::new().started("child", "stdin", None).is_none());
}

#[test]
fn written_number_is_recovered() {
    for pid in [0u32, 1, 4711, i32::MAX as u32] {
        let content = Process::new().started("c", "s", Some(pid)).unwrap().content;
        let mut p = Process::new();
        let step = p.try_recover(RecoveryInput::PidFile(Some(content)));
        assert_eq!(step, RecoveryStep::Probe(pid as i32));
        p.try_recover(RecoveryInput::Probe { pid: pid as i32, alive: true });
        assert_eq!(p.pid(), Some(pid));
        assert!(p.is_running());
    }
    let content = Process::new().started("c", "s", Some(1 << 31)).unwrap().content;
    let step = Process::new().try_recover(RecoveryInput::PidFile(Some(content)));
    assert_eq!(step, RecoveryStep::Done);
}

#[test]
fn recovery_leaves_what_it_cannot_read_and_removes_what_is_stale() {
    let mut p = Process::new();
    assert_eq!(p.try_recover(RecoveryInput::PidFile(None)), RecoveryStep::Done);
    assert_eq!(
        p.try_recover(RecoveryInput::PidFile(Some("abc".to_string()))),
        RecoveryStep::Done
    );
    assert_eq!(
        p.try_recover(RecoveryInput::PidFile(Some(" 12\n".to_string()))),
        RecoveryStep::Probe(12)
    );
    assert_eq!(
        p.try_recover(RecoveryInput::Probe { pid: 12, alive: false }),
        RecoveryStep::RemovePidFile
    );
    assert!(!p.is_running());
    assert_eq!(recovered(-1).pid(), Some((-1i32) as u32));
}

#[test]
fn launched_server_is_asked_then_killed() {
    let mut p = started();
    let (done, ok, slept) = run(&mut p, true, true);
    assert_eq!(done, ["stop", "kill child", "remove"]);
    assert!(ok);
    assert_eq!(slept, 10);
    assert!(!p.is_running());
    assert!(p.stdin().is_none());
}

#[test]
fn recovered_server_is_signalled_then_killed() {
    let mut p = recovered(12);
    let (done, ok, slept) = run(&mut p, true, true);
    assert_eq!(done, ["signal 12 false", "signal 12 true", "remove"]);
    assert!(ok);
    assert_eq!(slept, 3);
    assert!(!p.is_running());
}

#[test]
fn nothing_is_done_without_a_server() {
    let mut p = Process::new();
    assert_eq!(run(&mut p, true, true), (vec![], true, 0));
}

#[test]
fn failed_kill_keeps_the_process_number() {
    let mut p = started();
    let (done, ok, _) = run(&mut p, false, true);
    assert_eq!(done, ["stop", "kill child"]);
    assert!(!ok);
    assert!(p.child().is_none());
    assert_eq!(p.pid(), Some(4711));
    assert!(p.stdin().is_some());
}

#[test]
fn failed_removal_is_reported() {
    let mut p = started();
    assert!(!run(&mut p, true, false).1);
    assert!(!p.is_running());
}

#[test]
fn server_that_ends_meanwhile_is_not_killed() {
    let mut p = started();
    let (stage, _) = p.graceful_stop(GracefulStage::Begin, true);
    let (stage, _) = p.graceful_stop(stage, true);
    p.cleanup_on_exit();
    let (stage, action) = p.graceful_stop(stage, true);
    assert!(matches!(action, StopAction::RemovePidFile));
    assert_eq!(stage, GracefulStage::Forced(StopStage::RemovingPidFile));
}

#[test]
fn told_end_spares_the_kill() {
    for ends_at in 1..=10 {
        for removal_works in [true, false] {
            let mut p = started();
            let mut stage = GracefulStage::Begin;
            let mut ok = true;
            let mut slept = 0;
            let succeeded = loop {
                let (next, action) = p.graceful_stop(stage, ok);
                stage = next;
                ok = true;
                match action {
                    StopAction::Sleep(n) => {
                        slept += n;
                        if slept == ends_at {
                            p.cleanup_on_exit();
                        }
                    }
                    StopAction::SendStop => assert_eq!(slept, 0),
                    StopAction::RemovePidFile => ok = removal_works,
                    StopAction::Done => break true,
                    StopAction::Fail => break false,
                    StopAction::KillChild(_) | StopAction::Signal { .. } => panic!("killed"),
                }
            };
            assert_eq!(succeeded, removal_works);
            assert_eq!(slept, ends_at);
            assert!(!p.is_running());
        }
    }
}

#[test]
fn server_is_told_to_stop_in_words() {
    assert_eq!(stop_command(), "stop");
    assert_eq!(started().write_command(&stop_command()), Ok("stop\n".to_string()));
}

#[test]
fn forced_stop_does_not_reach_a_recovered_server() {
    let mut p = recovered(12);
    let (stage, action) = p.stop(StopStage::Begin, true);
    assert_eq!(stage, StopStage::Finished);
    assert!(matches!(action, StopAction::Done));
    assert!(p.is_running());
}

#[test]
fn commands_need_an_open_input() {
    assert_eq!(started().write_command("say hi"), Ok("say hi\n".to_string()));
    let refused = recovered(12).write_command("say hi").unwrap_err();
    assert_eq!(refused, ServerError::NoStdin);
    assert_eq!(refused.message(), "Server not running (no stdin)");
}

#[test]
fn all_pipes_are_needed() {
    assert_eq!(captured_pipes(Some(1), Some(2), Some(3)), Ok((1, 2, 3)));
    let e = captured_pipes(None::<u8>, None::<u8>, Some(3)).unwrap_err();
    assert_eq!(e, ServerError::StdinNotCaptured);
    assert_eq!(e.message(), "Failed to capture stdin");
    let e = captured_pipes(Some(1), None::<u8>, None::<u8>).unwrap_err();
    assert_eq!(e.message(), "Failed to capture stdout");
    let e = captured_pipes(Some(1), Some(2), None::<u8>).unwrap_err();
    assert_eq!(e.message(), "Failed to capture stderr");
}

#[test]
fn end_of_a_process_is_told() {
    for code in [Some(0), Some(-9), None] {
        assert_eq!(code_text(code), format!("{code:?}"));
        let events = exit_events(Ok(code));
        assert_eq!(events.len(), 2);
        assert!(matches!(&events[0], ServerEvent::Output(l)
            if *l == format!("Server exited with status: {code:?}")));
        assert!(matches!(&events[1], ServerEvent::Exit(c) if *c == code));
    }
    let events = exit_events(Err("gone".to_string()));
    assert!(matches!(&events[0], ServerEvent::Output(l) if l == "Server wait error: gone"));
    assert!(matches!(&events[1], ServerEvent::Exit(None)));
}
