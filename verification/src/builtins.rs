//! The closed set of builtin commands and their argument rules.  The table
//! is a sum type with an explicit lookup, consulted before any external
//! program is spawned; the work each builtin does against the outside world
//! stays with the driver.

use vstd::prelude::*;
use vstd::string::StringExecFns;

verus! {

/// The builtin commands the interpreter runs in-process.
#[derive(Debug, PartialEq, Eq, Clone, Copy, Structural)]
pub enum BuiltinKind {
    /// Change the working directory.
    Cd,
    /// Terminate the interpreter.
    Exit,
    /// Bind an environment variable.
    Let,
    /// Print the history file.
    History,
}

/// The builtin a command name stands for, if any.
pub open spec fn builtin_of(name: Seq<char>) -> Option<BuiltinKind> {
    if name == "cd"@ {
        Some(BuiltinKind::Cd)
    } else if name == "exit"@ {
        Some(BuiltinKind::Exit)
    } else if name == "let"@ {
        Some(BuiltinKind::Let)
    } else if name == "history"@ {
        Some(BuiltinKind::History)
    } else {
        None
    }
}

/// The builtin dispatch table, name beside kind.
pub fn builtins() -> (r: Vec<(String, BuiltinKind)>)
    ensures
        r@.len() == 4,
        forall|i: int| 0 <= i < 4 ==> builtin_of(#[trigger] r@[i].0@) == Some(r@[i].1),
        r@[0].1 == BuiltinKind::Cd,
        r@[1].1 == BuiltinKind::Exit,
        r@[2].1 == BuiltinKind::Let,
        r@[3].1 == BuiltinKind::History,
{
    proof {
        reveal_strlit("cd");
        reveal_strlit("exit");
        reveal_strlit("let");
        reveal_strlit("history");
    }
    let mut v: Vec<(String, BuiltinKind)> = Vec::new();
    v.push((String::from_str("cd"), BuiltinKind::Cd));
    v.push((String::from_str("exit"), BuiltinKind::Exit));
    v.push((String::from_str("let"), BuiltinKind::Let));
    v.push((String::from_str("history"), BuiltinKind::History));
    proof {
        assert(v@[0].0@ == "cd"@);
        assert(v@[1].0@ == "exit"@);
        assert(v@[2].0@ == "let"@);
        assert(v@[3].0@ == "history"@);
        assert(builtin_of(v@[0].0@) == Some(BuiltinKind::Cd));
        assert(builtin_of(v@[1].0@) == Some(BuiltinKind::Exit));
        assert(builtin_of(v@[2].0@) == Some(BuiltinKind::Let));
        assert(builtin_of(v@[3].0@) == Some(BuiltinKind::History));
    }
    v
}

/// Looks a command name up in the builtin table.
pub fn builtin_lookup(name: &String) -> (r: Option<BuiltinKind>)
    ensures
        r == builtin_of(name@),
{
    if *name == String::from_str("cd") {
        Some(BuiltinKind::Cd)
    } else if *name == String::from_str("exit") {
        Some(BuiltinKind::Exit)
    } else if *name == String::from_str("let") {
        Some(BuiltinKind::Let)
    } else if *name == String::from_str("history") {
        Some(BuiltinKind::History)
    } else {
        None
    }
}

/// A builtin's own argument-validation failure.
#[derive(Debug, PartialEq, Eq, Clone, Copy, Structural)]
pub enum BuiltinError {
    /// The builtin takes a different number of arguments.
    WrongArgumentCount,
}

/// The binding the `let` builtin makes: exactly a name and a value, in that
/// order; any other argument count is its validation failure.
pub fn let_binding(args: &Vec<String>) -> (r: Result<(String, String), BuiltinError>)
    ensures
        args@.len() == 2 ==> (r matches Ok(p) && p.0@ == args@[0]@ && p.1@ == args@[1]@),
        args@.len() != 2 ==> r == Err::<(String, String), BuiltinError>(
            BuiltinError::WrongArgumentCount,
        ),
{
    if args.len() == 2 {
        Ok((args[0].clone(), args[1].clone()))
    } else {
        Err(BuiltinError::WrongArgumentCount)
    }
}

/// The directory the `cd` builtin moves to: its first argument, or, when
/// none was given, the user's home directory, which only the driver knows.
pub fn cd_target(args: &Vec<String>) -> (r: Option<String>)
    ensures
        args@.len() > 0 ==> (r matches Some(p) && p@ == args@[0]@),
        args@.len() == 0 ==> r is None,
{
    if args.len() > 0 {
        Some(args[0].clone())
    } else {
        None
    }
}

} // verus!
