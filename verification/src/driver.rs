//! The dispatch coordinator: one input line, from raw text to the decision
//! of what to run.  A failure while tokenizing or grouping ends the line
//! before anything is dispatched.

use vstd::prelude::*;

use crate::builtins::{builtin_lookup, builtin_of, BuiltinKind};
use crate::env::Env;
use crate::group::{group, group_spec, invs_view, strings_view, Command, CommandV, GroupError,
    Invocation};
use crate::scanner::{parse, scan_from};
use crate::token::ScanError;

verus! {

/// How a command is to be run.
#[derive(Debug, PartialEq, Eq)]
pub enum Dispatch {
    /// Nothing stood on the line: report success without spawning.
    Nothing,
    /// A builtin runs in-process with these arguments.
    Builtin(BuiltinKind, Vec<String>),
    /// An external program is spawned with inherited standard streams.
    Spawn(String, Vec<String>),
    /// A chain of invocations runs as a pipeline.
    Pipeline(Vec<Invocation>),
}

/// The model of a dispatch decision.
pub enum DispatchV {
    Nothing,
    Builtin(BuiltinKind, Seq<Seq<char>>),
    Spawn(Seq<char>, Seq<Seq<char>>),
    Pipeline(Seq<crate::group::InvocationV>),
}

impl Dispatch {
    /// The model of this decision.
    pub open spec fn view(&self) -> DispatchV {
        match self {
            Dispatch::Nothing => DispatchV::Nothing,
            Dispatch::Builtin(k, args) => DispatchV::Builtin(*k, strings_view(args@)),
            Dispatch::Spawn(p, args) => DispatchV::Spawn(p@, strings_view(args@)),
            Dispatch::Pipeline(vs) => DispatchV::Pipeline(invs_view(vs@)),
        }
    }
}

/// What a command is routed to: the empty command to nothing, a single
/// invocation to the builtin table first and an external spawn otherwise,
/// a chain always to the pipeline executor.
pub open spec fn dispatch_spec(c: CommandV) -> DispatchV {
    match c {
        CommandV::Empty => DispatchV::Nothing,
        CommandV::Invocation(inv) => match builtin_of(inv.program) {
            Some(k) => DispatchV::Builtin(k, inv.args),
            None => DispatchV::Spawn(inv.program, inv.args),
        },
        CommandV::Piped(invs) => DispatchV::Pipeline(invs),
    }
}

/// Routes one grouped command.
pub fn dispatch(c: Command) -> (d: Dispatch)
    ensures
        d@ == dispatch_spec(c@),
{
    match c {
        Command::Empty => Dispatch::Nothing,
        Command::Invocation(inv) => {
            match builtin_lookup(&inv.program) {
                Some(k) => Dispatch::Builtin(k, inv.args),
                None => Dispatch::Spawn(inv.program, inv.args),
            }
        },
        Command::Piped(vs) => Dispatch::Pipeline(vs),
    }
}

/// How one input line ends before anything runs.
#[derive(Debug, PartialEq, Eq)]
pub enum LinePlan {
    /// Tokenizing failed: the line is failed, no command executes.
    ScanFailed(ScanError),
    /// Grouping failed: the line is failed, no command executes.
    GroupFailed(GroupError),
    /// The line is well formed and is to be run so.
    Run(Dispatch),
}

/// The model of a line plan.
pub enum LinePlanV {
    ScanFailed(ScanError),
    GroupFailed(GroupError),
    Run(DispatchV),
}

impl LinePlan {
    /// The model of this plan.
    pub open spec fn view(&self) -> LinePlanV {
        match self {
            LinePlan::ScanFailed(e) => LinePlanV::ScanFailed(*e),
            LinePlan::GroupFailed(e) => LinePlanV::GroupFailed(*e),
            LinePlan::Run(d) => LinePlanV::Run(d@),
        }
    }
}

/// The plan an input line stands for: tokenize, group with eager variable
/// resolution, dispatch — a failure in either early step fails the line.
pub open spec fn line_plan_spec(s: Seq<char>, env: Seq<(Seq<char>, Seq<char>)>) -> LinePlanV {
    let (ts, err) = scan_from(s, 0);
    match err {
        Some(e) => LinePlanV::ScanFailed(e),
        None => match group_spec(ts, env) {
            Err(g) => LinePlanV::GroupFailed(g),
            Ok(c) => LinePlanV::Run(dispatch_spec(c)),
        },
    }
}

/// One line, start to decision: the tokens of `line`, grouped against
/// `env`, routed to a builtin, a spawn, or a pipeline.
pub fn interpret_line(line: &str, env: &Env) -> (r: LinePlan)
    ensures
        r@ == line_plan_spec(line@, env@),
{
    let (tokens, err) = parse(line);
    match err {
        Some(e) => LinePlan::ScanFailed(e),
        None => {
            match group(&tokens, env) {
                Err(g) => LinePlan::GroupFailed(g),
                Ok(c) => LinePlan::Run(dispatch(c)),
            }
        },
    }
}

} // verus!
