//! Evaluator: walks an expression tree and decides, step by step, what runs.
//!
//! The walk itself performs no I/O. [`evaluate`] replays the statuses of the
//! actions performed so far (the oracle in `statuses`) and either asks for
//! the next action ([`EvalOutcome::Need`]), reports the final exit status
//! ([`EvalOutcome::Done`]), or signals that the `exit` builtin was reached
//! ([`EvalOutcome::Exit`]). The caller performs each requested action —
//! spawning a process, changing directory, snapshotting the directory around
//! a subshell — appends the action's status and calls [`evaluate`] again.
//!
//! Semantics, proved equal to [`spec_evaluate`]: `;` runs both sides and
//! keeps the right status; `&&` short-circuits on failure of the left side;
//! `||` short-circuits on success; a subshell's status is its inner
//! expression's status, and its directory changes are fenced by the
//! enter/leave actions; `cd` uses its first argument, or the home directory
//! with none; `exit` terminates the whole evaluation.

use vstd::prelude::*;

use crate::parser::{toks, Tok, TokenType};
use crate::tree::{
    AndExpr, AndExprOptions, AndModel, CallExpr, CallExprOptions, CallModel, Expr, ExprModel,
    OrExpr, OrExprOptions, OrModel, SemiModel, SemicolonExpr, SemicolonExprOptions,
};

verus! {

/// One external command: a program name and its argument strings.
#[derive(Debug, PartialEq)]
pub struct Process {
    pub command: String,
    pub arguments: Vec<String>,
}

/// The mathematical value of a [`Process`].
pub struct ProcessModel {
    pub command: Seq<char>,
    pub arguments: Seq<Seq<char>>,
}

impl View for Process {
    type V = ProcessModel;

    open spec fn view(&self) -> ProcessModel {
        ProcessModel {
            command: self.command@,
            arguments: self.arguments@.map_values(|s: String| s@),
        }
    }
}

/// An action the evaluator asks its caller to perform.
#[derive(Debug, PartialEq)]
pub enum Action {
    /// Spawn the process and wait for it; the status is its exit status, or
    /// the failure sentinel when it cannot be started.
    Run(Process),
    /// Change the working directory to the user's home directory; status 0
    /// on success, nonzero on failure.
    ChdirHome,
    /// Change the working directory to the given path; status 0 on success,
    /// nonzero on failure.
    Chdir(String),
    /// A subshell begins: snapshot the working directory. The status is
    /// ignored.
    EnterSubshell,
    /// A subshell ended: restore the snapshotted directory. The status is
    /// ignored.
    LeaveSubshell,
}

/// The mathematical value of an [`Action`].
pub enum ActionModel {
    Run(ProcessModel),
    ChdirHome,
    Chdir(Seq<char>),
    EnterSubshell,
    LeaveSubshell,
}

impl View for Action {
    type V = ActionModel;

    open spec fn view(&self) -> ActionModel {
        match self {
            Action::Run(p) => ActionModel::Run(p@),
            Action::ChdirHome => ActionModel::ChdirHome,
            Action::Chdir(p) => ActionModel::Chdir(p@),
            Action::EnterSubshell => ActionModel::EnterSubshell,
            Action::LeaveSubshell => ActionModel::LeaveSubshell,
        }
    }
}

/// The outcome of one call of [`evaluate`].
#[derive(Debug, PartialEq)]
pub enum EvalOutcome {
    /// Another action must run before the status is known: perform it,
    /// append its status and evaluate again.
    Need(Action),
    /// Evaluation finished with this exit status.
    Done(i32),
    /// The `exit` builtin was reached: terminate the whole loop.
    Exit,
}

/// The mathematical value of an [`EvalOutcome`].
pub enum OutcomeModel {
    Need(ActionModel),
    Done(i32),
    Exit,
}

impl View for EvalOutcome {
    type V = OutcomeModel;

    open spec fn view(&self) -> OutcomeModel {
        match self {
            EvalOutcome::Need(a) => OutcomeModel::Need(a@),
            EvalOutcome::Done(s) => OutcomeModel::Done(*s),
            EvalOutcome::Exit => OutcomeModel::Exit,
        }
    }
}

/// One step of the specification-level walk: the next action wanted, or the
/// status reached together with the next unread oracle position, or exit.
pub enum SpecStep {
    Need(ActionModel),
    Done(i32, int),
    Exit,
}

/// The text a token contributes in argument position: a word's own text, a
/// quoted string's text without its delimiters. Operators never stand in
/// argument position in a parsed tree; they contribute nothing.
pub open spec fn arg_text(t: Tok) -> Seq<char> {
    match t {
        Tok::Word(s) => s,
        Tok::DoubleQuotedString(s) => if s.len() >= 2 {
            s.subrange(1, s.len() - 1)
        } else {
            s
        },
        Tok::SingleQuotedString(s) => if s.len() >= 2 {
            s.subrange(1, s.len() - 1)
        } else {
            s
        },
        _ => Seq::empty(),
    }
}

/// The argument strings of a sequence of argument tokens.
pub open spec fn args_text(args: Seq<Tok>) -> Seq<Seq<char>> {
    args.map_values(|t: Tok| arg_text(t))
}

/// Walks one call. `cd` and `exit` are builtins; everything else asks for a
/// spawned process. A subshell is fenced by the enter and leave actions and
/// yields its inner expression's status.
pub open spec fn spec_eval_call(c: CallModel, statuses: Seq<i32>, from: int) -> SpecStep
    decreases c,
{
    match c {
        CallModel::Empty => SpecStep::Done(0, from),
        CallModel::ProgCall(name, args) => {
            let n = arg_text(name);
            if n == "cd"@ {
                if from < statuses.len() {
                    SpecStep::Done(statuses[from], from + 1)
                } else if args.len() == 0 {
                    SpecStep::Need(ActionModel::ChdirHome)
                } else {
                    SpecStep::Need(ActionModel::Chdir(arg_text(args[0])))
                }
            } else if n == "exit"@ {
                SpecStep::Exit
            } else {
                if from < statuses.len() {
                    SpecStep::Done(statuses[from], from + 1)
                } else {
                    SpecStep::Need(
                        ActionModel::Run(
                            ProcessModel { command: n, arguments: args_text(args) },
                        ),
                    )
                }
            }
        },
        CallModel::Parenthesis(inner) => {
            if from >= statuses.len() {
                SpecStep::Need(ActionModel::EnterSubshell)
            } else {
                match spec_eval_semi((*inner).value, statuses, from + 1) {
                    SpecStep::Need(a) => SpecStep::Need(a),
                    SpecStep::Exit => SpecStep::Exit,
                    SpecStep::Done(s, j) => if j < statuses.len() {
                        SpecStep::Done(s, j + 1)
                    } else {
                        SpecStep::Need(ActionModel::LeaveSubshell)
                    },
                }
            }
        },
    }
}

/// Walks one `||` chain: the right side runs only when the left side failed.
pub open spec fn spec_eval_or(o: OrModel, statuses: Seq<i32>, from: int) -> SpecStep
    decreases o,
{
    match o {
        OrModel::SingleExpr(c) => spec_eval_call(c, statuses, from),
        OrModel::Or(c, rest) => match spec_eval_call(c, statuses, from) {
            SpecStep::Need(a) => SpecStep::Need(a),
            SpecStep::Exit => SpecStep::Exit,
            SpecStep::Done(s, j) => if s == 0 {
                SpecStep::Done(s, j)
            } else {
                spec_eval_or(*rest, statuses, j)
            },
        },
    }
}

/// Walks one `&&` chain: the right side runs only when the left side
/// succeeded.
pub open spec fn spec_eval_and(a: AndModel, statuses: Seq<i32>, from: int) -> SpecStep
    decreases a,
{
    match a {
        AndModel::SingleExpr(o) => spec_eval_or(o, statuses, from),
        AndModel::And(o, rest) => match spec_eval_or(o, statuses, from) {
            SpecStep::Need(a2) => SpecStep::Need(a2),
            SpecStep::Exit => SpecStep::Exit,
            SpecStep::Done(s, j) => if s != 0 {
                SpecStep::Done(s, j)
            } else {
                spec_eval_and(*rest, statuses, j)
            },
        },
    }
}

/// Walks one `;` chain: every side runs; the status of the last one is kept.
pub open spec fn spec_eval_semi(m: SemiModel, statuses: Seq<i32>, from: int) -> SpecStep
    decreases m,
{
    match m {
        SemiModel::SingleExpr(a) => spec_eval_and(a, statuses, from),
        SemiModel::Semicolon(a, rest) => match spec_eval_and(a, statuses, from) {
            SpecStep::Need(a2) => SpecStep::Need(a2),
            SpecStep::Exit => SpecStep::Exit,
            SpecStep::Done(_s, j) => spec_eval_semi(*rest, statuses, j),
        },
    }
}

/// The outcome of evaluating a whole expression against the given oracle of
/// statuses.
pub open spec fn spec_evaluate(e: ExprModel, statuses: Seq<i32>) -> OutcomeModel {
    match spec_eval_semi(e.value, statuses, 0) {
        SpecStep::Need(a) => OutcomeModel::Need(a),
        SpecStep::Exit => OutcomeModel::Exit,
        SpecStep::Done(s, _j) => OutcomeModel::Done(s),
    }
}

enum Step {
    Need(Action),
    Done(i32, usize),
    Exit,
}

spec fn step_matches(st: Step, sp: SpecStep) -> bool {
    match st {
        Step::Need(a) => sp == SpecStep::Need(a@),
        Step::Done(s, j) => sp == SpecStep::Done(s, j as int),
        Step::Exit => sp == SpecStep::Exit,
    }
}

fn token_arg_text(t: &TokenType) -> (r: String)
    ensures
        r@ == arg_text(t@),
{
    match t {
        TokenType::Word(s) => s.clone(),
        TokenType::DoubleQuotedString(s) => {
            let ls = s.as_str();
            let m = ls.unicode_len();
            if m >= 2 {
                ls.substring_char(1, m - 1).to_owned()
            } else {
                s.clone()
            }
        },
        TokenType::SingleQuotedString(s) => {
            let ls = s.as_str();
            let m = ls.unicode_len();
            if m >= 2 {
                ls.substring_char(1, m - 1).to_owned()
            } else {
                s.clone()
            }
        },
        _ => String::new(),
    }
}

fn eval_call(c: &CallExpr, statuses: &Vec<i32>, from: usize) -> (r: Step)
    requires
        from <= statuses@.len(),
    ensures
        step_matches(r, spec_eval_call(c@, statuses@, from as int)),
        r matches Step::Done(_s, j) ==> from <= j <= statuses@.len(),
    decreases c,
{
    match &c.value {
        CallExprOptions::Empty => Step::Done(0, from),
        CallExprOptions::ProgCall(name, args) => {
            let n = token_arg_text(name);
            let cd_name = "cd".to_owned();
            let exit_name = "exit".to_owned();
            if n == cd_name {
                if from < statuses.len() {
                    Step::Done(statuses[from], from + 1)
                } else if args.len() == 0 {
                    Step::Need(Action::ChdirHome)
                } else {
                    Step::Need(Action::Chdir(token_arg_text(&args[0])))
                }
            } else if n == exit_name {
                Step::Exit
            } else {
                if from < statuses.len() {
                    Step::Done(statuses[from], from + 1)
                } else {
                    let mut arguments: Vec<String> = Vec::new();
                    let mut idx: usize = 0;
                    while idx < args.len()
                        invariant
                            idx <= args@.len(),
                            arguments@.map_values(|s: String| s@) == args_text(
                                toks(args@),
                            ).subrange(0, idx as int),
                        decreases args@.len() - idx,
                    {
                        let ghost cur = arguments@.map_values(|s: String| s@);
                        arguments.push(token_arg_text(&args[idx]));
                        proof {
                            assert(toks(args@)[idx as int] == args@[idx as int]@);
                            assert(arguments@.map_values(|s: String| s@) =~= cur + seq![
                                arg_text(args@[idx as int]@),
                            ]);
                            assert(arguments@.map_values(|s: String| s@) =~= args_text(
                                toks(args@),
                            ).subrange(0, idx as int + 1));
                        }
                        idx += 1;
                    }
                    proof {
                        assert(args_text(toks(args@)).subrange(0, args@.len() as int) =~= args_text(
                            toks(args@),
                        ));
                    }
                    Step::Need(Action::Run(Process { command: n, arguments }))
                }
            }
        },
        CallExprOptions::Parenthesis(inner) => {
            if from >= statuses.len() {
                Step::Need(Action::EnterSubshell)
            } else {
                match eval_semi(&inner.value, statuses, from + 1) {
                    Step::Need(a) => Step::Need(a),
                    Step::Exit => Step::Exit,
                    Step::Done(s, j) => {
                        if j < statuses.len() {
                            Step::Done(s, j + 1)
                        } else {
                            Step::Need(Action::LeaveSubshell)
                        }
                    },
                }
            }
        },
    }
}

fn eval_or(o: &OrExpr, statuses: &Vec<i32>, from: usize) -> (r: Step)
    requires
        from <= statuses@.len(),
    ensures
        step_matches(r, spec_eval_or(o@, statuses@, from as int)),
        r matches Step::Done(_s, j) ==> from <= j <= statuses@.len(),
    decreases o,
{
    match &o.value {
        OrExprOptions::SingleExpr(c) => eval_call(c, statuses, from),
        OrExprOptions::Or(c, rest) => match eval_call(c, statuses, from) {
            Step::Need(a) => Step::Need(a),
            Step::Exit => Step::Exit,
            Step::Done(s, j) => {
                if s == 0 {
                    Step::Done(s, j)
                } else {
                    eval_or(rest, statuses, j)
                }
            },
        },
    }
}

fn eval_and(a: &AndExpr, statuses: &Vec<i32>, from: usize) -> (r: Step)
    requires
        from <= statuses@.len(),
    ensures
        step_matches(r, spec_eval_and(a@, statuses@, from as int)),
        r matches Step::Done(_s, j) ==> from <= j <= statuses@.len(),
    decreases a,
{
    match &a.value {
        AndExprOptions::SingleExpr(o) => eval_or(o, statuses, from),
        AndExprOptions::And(o, rest) => match eval_or(o, statuses, from) {
            Step::Need(a2) => Step::Need(a2),
            Step::Exit => Step::Exit,
            Step::Done(s, j) => {
                if s != 0 {
                    Step::Done(s, j)
                } else {
                    eval_and(rest, statuses, j)
                }
            },
        },
    }
}

fn eval_semi(m: &SemicolonExpr, statuses: &Vec<i32>, from: usize) -> (r: Step)
    requires
        from <= statuses@.len(),
    ensures
        step_matches(r, spec_eval_semi(m@, statuses@, from as int)),
        r matches Step::Done(_s, j) ==> from <= j <= statuses@.len(),
    decreases m,
{
    match &m.value {
        SemicolonExprOptions::SingleExpr(a) => eval_and(a, statuses, from),
        SemicolonExprOptions::Semicolon(a, rest) => match eval_and(a, statuses, from) {
            Step::Need(a2) => Step::Need(a2),
            Step::Exit => Step::Exit,
            Step::Done(_s, j) => eval_semi(rest, statuses, j),
        },
    }
}

/// Replays the statuses of the actions performed so far and decides how
/// evaluation goes on; exactly [`spec_evaluate`].
pub fn evaluate(e: &Expr, statuses: &Vec<i32>) -> (r: EvalOutcome)
    ensures
        r@ == spec_evaluate(e@, statuses@),
{
    match eval_semi(&e.value, statuses, 0) {
        Step::Need(a) => EvalOutcome::Need(a),
        Step::Done(s, _j) => EvalOutcome::Done(s),
        Step::Exit => EvalOutcome::Exit,
    }
}

} // verus!
