//! The command grouper: walks the token sequence left to right, collapsing
//! consecutive non-pipe tokens into invocations and starting a new
//! invocation at each pipe separator.  Variable references are resolved
//! here, eagerly and in a single pass, not at execution time.

use vstd::prelude::*;

use crate::env::{env_value, Env};
use crate::token::{tokens_view, Token, TokenV};

verus! {

/// A single program invocation: the program name and its arguments.
#[derive(Debug, PartialEq, Eq)]
pub struct Invocation {
    pub program: String,
    pub args: Vec<String>,
}

/// The model of an invocation.
pub struct InvocationV {
    pub program: Seq<char>,
    pub args: Seq<Seq<char>>,
}

/// The model of a string vector: each string as its characters.
pub open spec fn strings_view(ss: Seq<String>) -> Seq<Seq<char>> {
    Seq::new(ss.len(), |i: int| ss[i]@)
}

impl Invocation {
    /// The model of this invocation.
    pub open spec fn view(&self) -> InvocationV {
        InvocationV { program: self.program@, args: strings_view(self.args@) }
    }
}

/// The model of an invocation vector.
pub open spec fn invs_view(vs: Seq<Invocation>) -> Seq<InvocationV> {
    Seq::new(vs.len(), |i: int| vs[i]@)
}

/// The structured form of one input line.
#[derive(Debug, PartialEq, Eq)]
pub enum Command {
    /// No tokens stood on the line.
    Empty,
    /// A single program invocation.
    Invocation(Invocation),
    /// Two or more invocations chained by pipes, in source order.
    Piped(Vec<Invocation>),
}

/// The model of a command.
pub enum CommandV {
    Empty,
    Invocation(InvocationV),
    Piped(Seq<InvocationV>),
}

impl Command {
    /// The model of this command.
    pub open spec fn view(&self) -> CommandV {
        match self {
            Command::Empty => CommandV::Empty,
            Command::Invocation(inv) => CommandV::Invocation(inv@),
            Command::Piped(vs) => CommandV::Piped(invs_view(vs@)),
        }
    }
}

/// Why grouping a token sequence failed.
#[derive(Debug, PartialEq, Eq, Clone, Copy, Structural)]
pub enum GroupError {
    /// A pipe with no invocation on one of its sides.
    DanglingPipe,
    /// A substitution token: parsed for, but without execution semantics.
    UnsupportedSubstitution,
}

/// What one accumulated token contributes to an invocation: words and
/// literals stand for themselves, a variable reference for its value in the
/// environment at grouping time.
pub open spec fn resolve_token(t: TokenV, env: Seq<(Seq<char>, Seq<char>)>) -> Seq<char> {
    match t {
        TokenV::Word(x) => x,
        TokenV::Literal(x) => x,
        TokenV::Var(n) => env_value(env, n),
        _ => Seq::empty(),
    }
}

/// The invocation an accumulated stage stands for: first token the program,
/// the rest its arguments.
pub open spec fn stage_of(cur: Seq<Seq<char>>) -> InvocationV
    recommends
        cur.len() > 0,
{
    InvocationV { program: cur[0], args: cur.drop_first() }
}

/// Grouping from position `i` on, with the stage accumulated so far and the
/// stages already finished.
pub open spec fn group_from(
    ts: Seq<TokenV>,
    i: int,
    cur: Seq<Seq<char>>,
    done: Seq<InvocationV>,
    env: Seq<(Seq<char>, Seq<char>)>,
) -> Result<Seq<InvocationV>, GroupError>
    decreases ts.len() - i,
{
    if !(0 <= i <= ts.len()) {
        Err(GroupError::DanglingPipe)
    } else if i == ts.len() {
        if cur.len() > 0 {
            Ok(done.push(stage_of(cur)))
        } else if done.len() == 0 {
            Ok(done)
        } else {
            Err(GroupError::DanglingPipe)
        }
    } else {
        match ts[i] {
            TokenV::Pipe => if cur.len() == 0 {
                Err(GroupError::DanglingPipe)
            } else {
                group_from(ts, i + 1, Seq::empty(), done.push(stage_of(cur)), env)
            },
            TokenV::Substitution(_, _) => Err(GroupError::UnsupportedSubstitution),
            t => group_from(ts, i + 1, cur.push(resolve_token(t, env)), done, env),
        }
    }
}

/// The command a token sequence stands for: no tokens give the empty
/// command, one stage a single invocation, several stages a pipeline.
pub open spec fn group_spec(ts: Seq<TokenV>, env: Seq<(Seq<char>, Seq<char>)>) -> Result<
    CommandV,
    GroupError,
> {
    match group_from(ts, 0, Seq::empty(), Seq::empty(), env) {
        Err(e) => Err(e),
        Ok(invs) => Ok(
            if invs.len() == 0 {
                CommandV::Empty
            } else if invs.len() == 1 {
                CommandV::Invocation(invs[0])
            } else {
                CommandV::Piped(invs)
            },
        ),
    }
}

/// Number of pipe separators at or after position `i`.
pub open spec fn count_pipes_from(ts: Seq<TokenV>, i: int) -> int
    decreases ts.len() - i,
{
    if !(0 <= i < ts.len()) {
        0
    } else {
        (if ts[i] is Pipe {
            1int
        } else {
            0int
        }) + count_pipes_from(ts, i + 1)
    }
}

/// Number of pipe separators in the whole sequence.
pub open spec fn count_pipes(ts: Seq<TokenV>) -> int {
    count_pipes_from(ts, 0)
}

/// No substitution token stands at or after position `i`.
pub open spec fn no_substitution_from(ts: Seq<TokenV>, i: int) -> bool {
    forall|m: int| i <= m < ts.len() ==> !(#[trigger] ts[m] is Substitution)
}

/// Every pipe separator has an invocation token on both sides: none stands
/// first or last, and no two stand next to each other.
pub open spec fn pipes_well_placed(ts: Seq<TokenV>) -> bool {
    (ts.len() > 0 ==> !(ts[0] is Pipe) && !(ts[ts.len() - 1] is Pipe)) && (forall|m: int|
        0 <= m < ts.len() - 1 ==> !(#[trigger] ts[m] is Pipe && ts[m + 1] is Pipe))
}

proof fn lemma_group_from_ok(
    ts: Seq<TokenV>,
    i: int,
    cur: Seq<Seq<char>>,
    done: Seq<InvocationV>,
    env: Seq<(Seq<char>, Seq<char>)>,
)
    requires
        0 <= i <= ts.len(),
        no_substitution_from(ts, i),
        i < ts.len() ==> !(ts[ts.len() - 1] is Pipe),
        forall|m: int| i <= m < ts.len() - 1 ==> !(#[trigger] ts[m] is Pipe && ts[m + 1] is Pipe),
        i < ts.len() && ts[i] is Pipe ==> cur.len() > 0,
        i == ts.len() ==> cur.len() > 0 || done.len() == 0,
    ensures
        group_from(ts, i, cur, done, env) is Ok,
        group_from(ts, i, cur, done, env) matches Ok(invs) ==> invs.len() == done.len()
            + count_pipes_from(ts, i) + (if cur.len() > 0 || i < ts.len() {
            1int
        } else {
            0int
        }),
    decreases ts.len() - i,
{
    if i < ts.len() {
        match ts[i] {
            TokenV::Pipe => {
                lemma_group_from_ok(ts, i + 1, Seq::empty(), done.push(stage_of(cur)), env);
            },
            TokenV::Substitution(_, _) => {
                assert(false);
            },
            t => {
                lemma_group_from_ok(ts, i + 1, cur.push(resolve_token(t, env)), done, env);
            },
        }
    }
}

/// For a token sequence holding N pipe separators, each with a well-formed
/// invocation on both sides, grouping yields a piped command with exactly
/// N + 1 stages, in source order.
pub proof fn lemma_pipe_stage_count(ts: Seq<TokenV>, env: Seq<(Seq<char>, Seq<char>)>)
    requires
        ts.len() > 0,
        no_substitution_from(ts, 0),
        pipes_well_placed(ts),
        count_pipes(ts) >= 1,
    ensures
        group_spec(ts, env) is Ok,
        group_spec(ts, env) matches Ok(c) ==> (c matches CommandV::Piped(stages) && stages.len()
            == count_pipes(ts) + 1),
{
    lemma_group_from_ok(ts, 0, Seq::empty(), Seq::empty(), env);
}

/// Builds the invocation of one finished stage.
fn make_stage(cur: Vec<String>) -> (inv: Invocation)
    requires
        cur@.len() > 0,
    ensures
        inv@ == stage_of(strings_view(cur@)),
{
    let ghost cv = cur@;
    let mut rest = cur;
    let program = rest.remove(0);
    let inv = Invocation { program, args: rest };
    proof {
        assert(cv.remove(0) =~= cv.drop_first());
        assert(strings_view(cv.drop_first()) =~= strings_view(cv).drop_first());
        assert(inv@.args =~= stage_of(strings_view(cv)).args);
    }
    inv
}

/// Groups a token sequence into a command, resolving variable references
/// against `env`; a pipe with a missing invocation on either side, or a
/// substitution token, fails the whole line.
pub fn group(tokens: &Vec<Token>, env: &Env) -> (r: Result<Command, GroupError>)
    ensures
        r matches Ok(c) ==> group_spec(tokens_view(tokens@), env@) == Ok::<CommandV, GroupError>(
            c@,
        ),
        r matches Err(e) ==> group_spec(tokens_view(tokens@), env@) == Err::<
            CommandV,
            GroupError,
        >(e),
{
    let ghost tv = tokens_view(tokens@);
    proof {
        crate::token::lemma_tokens_view(tokens@);
    }
    let mut cur: Vec<String> = Vec::new();
    let mut done: Vec<Invocation> = Vec::new();
    let mut i: usize = 0;
    proof {
        assert(strings_view(cur@) =~= Seq::<Seq<char>>::empty());
        assert(invs_view(done@) =~= Seq::<InvocationV>::empty());
    }
    loop
        invariant
            i <= tokens@.len(),
            tv == tokens_view(tokens@),
            tv.len() == tokens@.len(),
            forall|m: int| 0 <= m < tokens@.len() ==> tv[m] == #[trigger] tokens@[m].view(),
            group_from(tv, 0, Seq::empty(), Seq::empty(), env@) == group_from(
                tv,
                i as int,
                strings_view(cur@),
                invs_view(done@),
                env@,
            ),
        decreases tokens@.len() - i,
    {
        if i >= tokens.len() {
            if cur.len() > 0 {
                let inv = make_stage(cur);
                proof {
                    assert(invs_view(done@.push(inv)) =~= invs_view(done@).push(inv@));
                }
                done.push(inv);
            } else if done.len() > 0 {
                return Err(GroupError::DanglingPipe);
            } else {
                return Ok(Command::Empty);
            }
            if done.len() == 1 {
                let ghost gdone = done@;
                let mut d = done;
                let inv = d.remove(0);
                proof {
                    assert(inv@ == invs_view(gdone)[0]);
                }
                return Ok(Command::Invocation(inv));
            } else {
                return Ok(Command::Piped(done));
            }
        }
        let resolved: String = match &tokens[i] {
            Token::Pipe => {
                proof {
                    assert(tv[i as int] == tokens@[i as int].view());
                }
                if cur.len() == 0 {
                    return Err(GroupError::DanglingPipe);
                }
                let inv = make_stage(cur);
                proof {
                    assert(invs_view(done@.push(inv)) =~= invs_view(done@).push(inv@));
                }
                done.push(inv);
                cur = Vec::new();
                i = i + 1;
                proof {
                    assert(strings_view(cur@) =~= Seq::<Seq<char>>::empty());
                }
                continue ;
            },
            Token::Substitution(_, _) => {
                proof {
                    assert(tv[i as int] == tokens@[i as int].view());
                }
                return Err(GroupError::UnsupportedSubstitution);
            },
            Token::Word(w) => w.clone(),
            Token::Literal(l) => l.clone(),
            Token::Var(n) => env.value_of(n),
        };
        proof {
            assert(tv[i as int] == tokens@[i as int].view());
            assert(resolved@ == resolve_token(tv[i as int], env@));
            assert(strings_view(cur@.push(resolved)) =~= strings_view(cur@).push(resolved@));
        }
        cur.push(resolved);
        i = i + 1;
    }
}

} // verus!
