use shell_core::eval::{evaluate, Action, EvalOutcome, Process};
use shell_core::parser::parse;
use shell_core::tree::Expr;

fn build(line: &str) -> Expr {
    let tokens = parse(&line.to_string()).unwrap();
    Expr::from_tokens(&tokens).unwrap()
}

fn run(name: &str, args: &[&str]) -> EvalOutcome {
    EvalOutcome::Need(Action::Run(Process {
        command: name.to_string(),
        arguments: args.iter().map(|a| a.to_string()).collect(),
    }))
}

#[test]
fn test_and_short_circuits_on_failure() {
    let expr = build("false && echo hi");

    // The left side runs first.
    assert_eq!(evaluate(&expr, &vec![]), run("false", &[]));
    // Once it failed, echo is never requested and its status is the result.
    assert_eq!(evaluate(&expr, &vec![1]), EvalOutcome::Done(1));
}

#[test]
fn test_and_continues_on_success() {
    let expr = build("true && echo hi");

    assert_eq!(evaluate(&expr, &vec![]), run("true", &[]));
    assert_eq!(evaluate(&expr, &vec![0]), run("echo", &["hi"]));
    assert_eq!(evaluate(&expr, &vec![0, 0]), EvalOutcome::Done(0));
}

#[test]
fn test_or_short_circuits_on_success() {
    let expr = build("true || echo hi");

    assert_eq!(evaluate(&expr, &vec![]), run("true", &[]));
    // Once it succeeded, echo is never requested.
    assert_eq!(evaluate(&expr, &vec![0]), EvalOutcome::Done(0));
}

#[test]
fn test_or_continues_on_failure() {
    let expr = build("false || echo hi");

    assert_eq!(evaluate(&expr, &vec![]), run("false", &[]));
    assert_eq!(evaluate(&expr, &vec![1]), run("echo", &["hi"]));
    assert_eq!(evaluate(&expr, &vec![1, 0]), EvalOutcome::Done(0));
}

#[test]
fn test_semicolon_runs_both_sides() {
    let expr = build("false; echo hi");

    assert_eq!(evaluate(&expr, &vec![]), run("false", &[]));
    // The first segment's failure does not stop the second.
    assert_eq!(evaluate(&expr, &vec![1]), run("echo", &["hi"]));
    // The final status is the last segment's.
    assert_eq!(evaluate(&expr, &vec![1, 0]), EvalOutcome::Done(0));
}

#[test]
fn test_empty_line_succeeds_without_actions() {
    let expr = build("");

    assert_eq!(evaluate(&expr, &vec![]), EvalOutcome::Done(0));
}

#[test]
fn test_cd_without_arguments_goes_home() {
    let expr = build("cd");

    assert_eq!(
        evaluate(&expr, &vec![]),
        EvalOutcome::Need(Action::ChdirHome)
    );
    assert_eq!(evaluate(&expr, &vec![0]), EvalOutcome::Done(0));
}

#[test]
fn test_cd_uses_first_argument_only() {
    let expr = build("cd tmp other");

    assert_eq!(
        evaluate(&expr, &vec![]),
        EvalOutcome::Need(Action::Chdir("tmp".to_string()))
    );
    // A failed directory change surfaces as a failure status.
    assert_eq!(evaluate(&expr, &vec![1]), EvalOutcome::Done(1));
}

#[test]
fn test_exit_terminates_evaluation() {
    let expr = build("ls; exit; ls");

    assert_eq!(evaluate(&expr, &vec![]), run("ls", &[]));
    assert_eq!(evaluate(&expr, &vec![0]), EvalOutcome::Exit);
}

#[test]
fn test_subshell_is_fenced_and_keeps_inner_status() {
    let expr = build("(false)");

    assert_eq!(
        evaluate(&expr, &vec![]),
        EvalOutcome::Need(Action::EnterSubshell)
    );
    assert_eq!(evaluate(&expr, &vec![0]), run("false", &[]));
    assert_eq!(
        evaluate(&expr, &vec![0, 7]),
        EvalOutcome::Need(Action::LeaveSubshell)
    );
    // The leave step's own status is ignored; the inner status is kept.
    assert_eq!(evaluate(&expr, &vec![0, 7, 0]), EvalOutcome::Done(7));
}

#[test]
fn test_quoted_argument_loses_its_delimiters() {
    let expr = build("echo \"hola mundo\" 'x y'");

    assert_eq!(
        evaluate(&expr, &vec![]),
        run("echo", &["hola mundo", "x y"])
    );
}
