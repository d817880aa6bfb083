use codecrafters_shell::command::{parse_user_input, Output};
use codecrafters_shell::engine::{
    stage_wiring, EngineAction, ExecutionOutcome, Launch, PipelineRun, StageOutput,
    COMMAND_NOT_FOUND, SPAWN_FAILED,
};
use codecrafters_shell::redirect::append_payload_of;

fn file_after_create_then_append(first: &[u8], second: &[u8]) -> Vec<u8> {
    let mut file = first.to_vec();
    let tail = file.last().copied();
    file.extend(append_payload_of(tail, &second.to_vec()));
    file
}

#[test]
fn append_after_create_separates_with_one_newline() {
    assert_eq!(file_after_create_then_append(b"one\n", b"two\n"), b"one\ntwo\n".to_vec());
    assert_eq!(file_after_create_then_append(b"one", b"two\n"), b"one\ntwo\n".to_vec());
}

#[test]
fn append_to_empty_file_adds_no_separator() {
    assert_eq!(append_payload_of(None, &b"x\n".to_vec()), b"x\n".to_vec());
}

#[test]
fn append_of_nothing_writes_nothing() {
    assert_eq!(append_payload_of(Some(b'a'), &Vec::new()), Vec::<u8>::new());
}

#[test]
fn pipeline_ending_in_missing_command_fails_after_waiting() {
    let mut run = PipelineRun::new(3);
    assert_eq!(run.next_action(), EngineAction::Start(0));
    run.record_launch(Launch::Spawned);
    assert_eq!(run.next_action(), EngineAction::Start(1));
    run.record_launch(Launch::Spawned);
    assert_eq!(run.next_action(), EngineAction::Start(2));
    run.record_launch(Launch::NotFound);
    assert_eq!(run.next_action(), EngineAction::Wait(0));
    run.record_exit(0, 0);
    assert_eq!(run.next_action(), EngineAction::Wait(1));
    run.record_exit(1, 0);
    let action = run.next_action();
    assert_eq!(action, EngineAction::Finish(ExecutionOutcome { exit_code: COMMAND_NOT_FOUND }));
    assert_ne!(COMMAND_NOT_FOUND, 0);
}

#[test]
fn missing_command_mid_pipeline_stops_later_stages() {
    let mut run = PipelineRun::new(3);
    run.record_launch(Launch::Builtin(0));
    assert_eq!(run.next_action(), EngineAction::Start(1));
    run.record_launch(Launch::NotFound);
    assert_eq!(
        run.next_action(),
        EngineAction::Finish(ExecutionOutcome { exit_code: COMMAND_NOT_FOUND })
    );
}

#[test]
fn exit_code_comes_from_the_last_stage() {
    let mut run = PipelineRun::new(2);
    run.record_launch(Launch::Spawned);
    run.record_launch(Launch::Spawned);
    assert_eq!(run.next_action(), EngineAction::Wait(0));
    run.record_exit(0, 3);
    assert_eq!(run.next_action(), EngineAction::Wait(1));
    run.record_exit(1, 7);
    assert_eq!(run.next_action(), EngineAction::Finish(ExecutionOutcome { exit_code: 7 }));
}

#[test]
fn builtin_last_stage_reports_its_code() {
    let mut run = PipelineRun::new(2);
    run.record_launch(Launch::Spawned);
    run.record_launch(Launch::Builtin(0));
    assert_eq!(run.next_action(), EngineAction::Wait(0));
    run.record_exit(0, 1);
    assert_eq!(run.next_action(), EngineAction::Finish(ExecutionOutcome { exit_code: 0 }));
}

#[test]
fn spawn_failure_is_fatal() {
    let mut run = PipelineRun::new(2);
    run.record_launch(Launch::SpawnFailed);
    assert_eq!(run.next_action(), EngineAction::Finish(ExecutionOutcome { exit_code: SPAWN_FAILED }));
}

#[test]
fn only_the_last_stage_redirects_stdout() {
    let cs: Vec<_> = parse_user_input("a > x 2> e1 | b > y".to_string(), "/h")
        .unwrap()
        .into_iter()
        .collect();
    let w0 = stage_wiring(&cs[0], 0, 2);
    assert!(!w0.stdin_from_previous);
    assert!(matches!(w0.stdout, StageOutput::Pipe));
    assert!(matches!(w0.stderr, Output::CreateFile(ref f) if f == "e1"));
    let w1 = stage_wiring(&cs[1], 1, 2);
    assert!(w1.stdin_from_previous);
    assert!(matches!(w1.stdout, StageOutput::Redirect(Output::CreateFile(ref f)) if f == "y"));
    assert!(w1.stderr.is_standard());
}
