use rush::builtins::{builtin_lookup, builtins, cd_target, let_binding, BuiltinError, BuiltinKind};
use rush::driver::{interpret_line, Dispatch, LinePlan};
use rush::env::Env;
use rush::group::Invocation;
use rush::pipeline::{
    plan_pipeline, status_code, Outcome, PipelineRun, RunAction, Status, StdinSpec, StdoutSpec,
};
use rush::token::ScanError;
use rush::utils::get_histfile_path;

fn inv(program: &str, args: &[&str]) -> Invocation {
    Invocation {
        program: program.to_string(),
        args: args.iter().map(|a| a.to_string()).collect(),
    }
}

#[test]
fn builtin_table_holds_the_four_builtins() {
    let table = builtins();
    let names: Vec<String> = table.iter().map(|p| p.0.clone()).collect();
    assert_eq!(names, vec!["cd", "exit", "let", "history"]);
}

#[test]
fn builtin_lookup_finds_builtins_and_nothing_else() {
    assert_eq!(builtin_lookup(&"cd".to_string()), Some(BuiltinKind::Cd));
    assert_eq!(builtin_lookup(&"exit".to_string()), Some(BuiltinKind::Exit));
    assert_eq!(builtin_lookup(&"let".to_string()), Some(BuiltinKind::Let));
    assert_eq!(
        builtin_lookup(&"history".to_string()),
        Some(BuiltinKind::History)
    );
    assert_eq!(builtin_lookup(&"ls".to_string()), None);
}

#[test]
fn let_needs_exactly_two_arguments() {
    assert_eq!(
        let_binding(&vec!["A".to_string(), "1".to_string()]),
        Ok(("A".to_string(), "1".to_string()))
    );
    assert_eq!(
        let_binding(&vec!["A".to_string()]),
        Err(BuiltinError::WrongArgumentCount)
    );
    assert_eq!(
        let_binding(&vec!["A".to_string(), "1".to_string(), "2".to_string()]),
        Err(BuiltinError::WrongArgumentCount)
    );
}

#[test]
fn cd_takes_first_argument_or_defers_to_home() {
    assert_eq!(
        cd_target(&vec!["/tmp".to_string(), "ignored".to_string()]),
        Some("/tmp".to_string())
    );
    assert_eq!(cd_target(&vec![]), None);
}

#[test]
fn histfile_path_prefers_histfile_binding() {
    let env = Env::from_pairs(vec![
        ("HISTFILE".to_string(), "/tmp/h".to_string()),
        ("HOME".to_string(), "/home/u".to_string()),
    ]);
    assert_eq!(get_histfile_path(&env), "/tmp/h");
}

#[test]
fn histfile_path_defaults_under_home() {
    let env = Env::from_pairs(vec![("HOME".to_string(), "/home/u".to_string())]);
    assert_eq!(get_histfile_path(&env), "/home/u/.rush_history");
}

#[test]
fn pipeline_plan_wires_adjacent_stages() {
    let plans = plan_pipeline(vec![inv("a", &[]), inv("b", &["x"]), inv("c", &[])]);
    assert_eq!(plans.len(), 3);
    assert_eq!(plans[0].stdin, StdinSpec::Inherit);
    assert_eq!(plans[0].stdout, StdoutSpec::ToNextStage);
    assert_eq!(plans[1].stdin, StdinSpec::FromPrevStage);
    assert_eq!(plans[1].stdout, StdoutSpec::ToNextStage);
    assert_eq!(plans[2].stdin, StdinSpec::FromPrevStage);
    assert_eq!(plans[2].stdout, StdoutSpec::Inherit);
    assert_eq!(plans[1].program, "b");
    assert_eq!(plans[1].args, vec!["x".to_string()]);
}

#[test]
fn pipeline_status_is_last_stage_status() {
    let mut run = PipelineRun::start(2);
    assert_eq!(run.next_action(), RunAction::SpawnStage(0));
    run.on_spawned();
    assert_eq!(run.next_action(), RunAction::SpawnStage(1));
    run.on_spawned();
    assert_eq!(run.next_action(), RunAction::WaitStage(0));
    run.on_waited(Status::Exited(3));
    assert_eq!(run.next_action(), RunAction::WaitStage(1));
    run.on_waited(Status::Exited(0));
    assert_eq!(run.next_action(), RunAction::Finish);
    let outcome = run.outcome();
    assert_eq!(outcome, Outcome::Completed(Status::Exited(0)));
    assert_eq!(status_code(&outcome), Some(0));
}

#[test]
fn spawn_failure_reaps_spawned_stages_and_reports_127() {
    let mut run = PipelineRun::start(3);
    run.on_spawned();
    assert_eq!(run.next_action(), RunAction::SpawnStage(1));
    run.on_spawn_failed();
    assert_eq!(run.next_action(), RunAction::WaitStage(0));
    run.on_waited(Status::Exited(0));
    assert_eq!(run.next_action(), RunAction::Finish);
    assert_eq!(run.waited, run.spawned);
    let outcome = run.outcome();
    assert_eq!(outcome, Outcome::SpawnFailed);
    assert_eq!(status_code(&outcome), Some(127));
}

#[test]
fn immediate_spawn_failure_completes_without_waits() {
    let mut run = PipelineRun::start(2);
    run.on_spawn_failed();
    assert_eq!(run.next_action(), RunAction::Finish);
    assert_eq!(run.waited, 0);
    assert_eq!(run.outcome(), Outcome::SpawnFailed);
}

#[test]
fn signal_termination_has_no_exit_code() {
    assert_eq!(status_code(&Outcome::Completed(Status::Signaled(9))), None);
}

#[test]
fn empty_line_dispatches_to_nothing() {
    let env = Env::new();
    assert_eq!(interpret_line("", &env), LinePlan::Run(Dispatch::Nothing));
}

#[test]
fn builtin_name_routes_to_builtin() {
    let env = Env::new();
    assert_eq!(
        interpret_line("cd projects", &env),
        LinePlan::Run(Dispatch::Builtin(
            BuiltinKind::Cd,
            vec!["projects".to_string()]
        ))
    );
}

#[test]
fn external_name_routes_to_spawn() {
    let env = Env::new();
    assert_eq!(
        interpret_line("echo hi", &env),
        LinePlan::Run(Dispatch::Spawn("echo".to_string(), vec!["hi".to_string()]))
    );
}

#[test]
fn piped_line_routes_to_pipeline() {
    let env = Env::new();
    assert_eq!(
        interpret_line("a | b", &env),
        LinePlan::Run(Dispatch::Pipeline(vec![inv("a", &[]), inv("b", &[])]))
    );
}

#[test]
fn scan_failure_fails_the_line_before_dispatch() {
    let env = Env::new();
    assert_eq!(
        interpret_line("echo \"oops", &env),
        LinePlan::ScanFailed(ScanError::UnterminatedLiteral)
    );
}

#[test]
fn group_failure_fails_the_line_before_dispatch() {
    let env = Env::new();
    assert!(matches!(
        interpret_line("ls |", &env),
        LinePlan::GroupFailed(_)
    ));
}

#[test]
fn variable_program_resolves_before_dispatch() {
    let env = Env::from_pairs(vec![("HOME".to_string(), "/x".to_string())]);
    assert_eq!(
        interpret_line("$HOME", &env),
        LinePlan::Run(Dispatch::Spawn("/x".to_string(), vec![]))
    );
}
