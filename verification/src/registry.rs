use vstd::prelude::*;
use crate::actor::{Actor, ActorView};
use crate::text::str_eq;

verus! {

/// The mapping an entry list stands for: the entry nearest the end wins for
/// its name.
pub open spec fn entries_map(s: Seq<(String, Actor)>) -> Map<Seq<char>, ActorView>
    decreases s.len(),
{
    if s.len() == 0 {
        Map::empty()
    } else {
        entries_map(s.drop_last()).insert(s.last().0@, s.last().1@)
    }
}

pub proof fn lemma_entries_map_contains(s: Seq<(String, Actor)>, n: Seq<char>)
    ensures
        entries_map(s).contains_key(n) <==> exists|i: int| 0 <= i < s.len() && s[i].0@ == n,
    decreases s.len(),
{
    if s.len() > 0 {
        let sd = s.drop_last();
        lemma_entries_map_contains(sd, n);
        if s.last().0@ == n {
            assert(s[s.len() - 1].0@ == n);
        } else {
            if entries_map(s).contains_key(n) {
                let i = choose|i: int| 0 <= i < sd.len() && sd[i].0@ == n;
                assert(s[i].0@ == n);
            }
            if exists|i: int| 0 <= i < s.len() && s[i].0@ == n {
                let i = choose|i: int| 0 <= i < s.len() && s[i].0@ == n;
                assert(sd[i].0@ == n);
            }
        }
    }
}

pub proof fn lemma_entries_map_value(s: Seq<(String, Actor)>, i: int)
    requires
        0 <= i < s.len(),
        forall|j: int| i < j < s.len() ==> s[j].0@ != s[i].0@,
    ensures
        entries_map(s).contains_key(s[i].0@),
        entries_map(s)[s[i].0@] == s[i].1@,
    decreases s.len(),
{
    if i < s.len() - 1 {
        lemma_entries_map_value(s.drop_last(), i);
    }
}

/// A table from actor name to actor. Its value is a map holding at most one
/// actor per name; an insert under an existing name replaces what the name
/// maps to, shadowing the earlier entry. Readers observe only fully
/// constructed actors, and reads need no more than a shared reference.
pub struct Registry {
    entries: Vec<(String, Actor)>,
}

impl View for Registry {
    type V = Map<Seq<char>, ActorView>;

    closed spec fn view(&self) -> Map<Seq<char>, ActorView> {
        entries_map(self.entries@)
    }
}

impl Registry {
    /// An empty registry.
    pub fn new() -> (r: Registry)
        ensures
            r@ == Map::<Seq<char>, ActorView>::empty(),
    {
        Registry { entries: Vec::new() }
    }

    /// Looks a name up; yields the actor for it exactly when one is present.
    pub fn get(&self, name: &str) -> (r: Option<&Actor>)
        ensures
            match r {
                Some(a) => self@.contains_key(name@) && a@ == self@[name@],
                None => !self@.contains_key(name@),
            },
    {
        let mut i: usize = self.entries.len();
        while i > 0
            invariant
                i <= self.entries@.len(),
                forall|j: int| i <= j < self.entries@.len() ==> self.entries@[j].0@ != name@,
            decreases i,
        {
            i = i - 1;
            if str_eq(self.entries[i].0.as_str(), name) {
                proof {
                    lemma_entries_map_value(self.entries@, i as int);
                }
                return Some(&self.entries[i].1);
            }
        }
        proof {
            lemma_entries_map_contains(self.entries@, name@);
        }
        None
    }

    /// Adds or replaces the entry for a name.
    pub fn insert(&mut self, name: String, actor: Actor)
        ensures
            final(self)@ == old(self)@.insert(name@, actor@),
    {
        let ghost s = self.entries@;
        self.entries.push((name, actor));
        proof {
            assert(self.entries@.drop_last() =~= s);
        }
    }
}

/// Inserting under a name and then inserting again under the same name leaves
/// the later actor as the one the name maps to.
pub proof fn lemma_insert_replaces(
    m: Map<Seq<char>, ActorView>,
    name: Seq<char>,
    a: ActorView,
    b: ActorView,
)
    ensures
        m.insert(name, a).insert(name, b).contains_key(name),
        m.insert(name, a).insert(name, b)[name] == b,
{
}

} // verus!
