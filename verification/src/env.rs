//! The environment-variable table as an explicit value threaded through the
//! interpreter, so that variable resolution is free of process-global state.

use vstd::prelude::*;
use vstd::string::StringExecFns;

verus! {

/// First binding of `name` in an ordered pair sequence, if any: earlier
/// pairs shadow later ones.
pub open spec fn env_lookup(ps: Seq<(Seq<char>, Seq<char>)>, name: Seq<char>) -> Option<
    Seq<char>,
>
    decreases ps.len(),
{
    if ps.len() == 0 {
        None
    } else if ps[0].0 == name {
        Some(ps[0].1)
    } else {
        env_lookup(ps.drop_first(), name)
    }
}

/// The value a variable reference resolves to: its bound value, or the
/// empty string when the name is unbound.
pub open spec fn env_value(ps: Seq<(Seq<char>, Seq<char>)>, name: Seq<char>) -> Seq<char> {
    match env_lookup(ps, name) {
        Some(v) => v,
        None => Seq::empty(),
    }
}

/// The model of a pair vector: each name and value as its characters.
pub open spec fn pairs_view(ps: Seq<(String, String)>) -> Seq<(Seq<char>, Seq<char>)> {
    Seq::new(ps.len(), |i: int| (ps[i].0@, ps[i].1@))
}

/// An environment-variable table held as a plain value.
pub struct Env {
    pairs: Vec<(String, String)>,
}

impl Env {
    /// The model: the bindings in shadowing order, earliest first.
    pub closed spec fn view(&self) -> Seq<(Seq<char>, Seq<char>)> {
        pairs_view(self.pairs@)
    }

    /// An empty table: every lookup misses.
    pub fn new() -> (r: Env)
        ensures
            r@ == Seq::<(Seq<char>, Seq<char>)>::empty(),
    {
        let r = Env { pairs: Vec::new() };
        proof {
            assert(r@ =~= Seq::<(Seq<char>, Seq<char>)>::empty());
        }
        r
    }

    /// A table holding the given bindings, earliest pair shadowing.
    pub fn from_pairs(pairs: Vec<(String, String)>) -> (r: Env)
        ensures
            r@ == pairs_view(pairs@),
    {
        Env { pairs }
    }

    /// Binds `name` to `value`, shadowing any earlier binding of it.
    pub fn set(&mut self, name: String, value: String)
        ensures
            final(self)@ == seq![(name@, value@)] + old(self)@,
    {
        let ghost n = name@;
        let ghost v = value@;
        self.pairs.insert(0, (name, value));
        proof {
            assert(self@ =~= seq![(n, v)] + old(self)@);
        }
    }

    /// The first binding of `name`, if any.
    pub fn get(&self, name: &String) -> (r: Option<String>)
        ensures
            r matches Some(v) ==> env_lookup(self@, name@) == Some(v@),
            r is None ==> env_lookup(self@, name@) is None,
    {
        let mut i: usize = 0;
        proof {
            assert(self@.skip(0) =~= self@);
        }
        loop
            invariant
                i <= self.pairs@.len(),
                env_lookup(self@, name@) == env_lookup(self@.skip(i as int), name@),
            decreases self.pairs@.len() - i,
        {
            if i >= self.pairs.len() {
                return None;
            }
            if self.pairs[i].0 == *name {
                proof {
                    assert(self@.skip(i as int)[0] == (self.pairs@[i as int].0@,
                    self.pairs@[i as int].1@));
                }
                return Some(self.pairs[i].1.clone());
            }
            proof {
                assert(self@.skip(i as int).drop_first() =~= self@.skip(i + 1));
                assert(self@.skip(i as int)[0] == (self.pairs@[i as int].0@,
                self.pairs@[i as int].1@));
            }
            i = i + 1;
        }
    }

    /// The resolved value of `name`: its bound value, or the empty string.
    pub fn value_of(&self, name: &String) -> (r: String)
        ensures
            r@ == env_value(self@, name@),
    {
        match self.get(name) {
            Some(v) => v,
            None => String::new(),
        }
    }
}

} // verus!
