//! The per-function environment: identifiers bound to type-arena indices.
use vstd::prelude::*;

use crate::ast::TypeId;
use crate::rules::LocalsView;

verus! {

/// Bindings in the order they were made; a later binding of a name hides an
/// earlier one.
#[derive(Debug)]
pub struct Locals {
    entries: Vec<(String, TypeId)>,
}

pub open spec fn bindings_map(e: Seq<(String, TypeId)>) -> LocalsView
    decreases e.len(),
{
    if e.len() == 0 {
        Map::empty()
    } else {
        bindings_map(e.drop_last()).insert(e.last().0@, e.last().1 as nat)
    }
}

impl Locals {
    pub closed spec fn view(&self) -> LocalsView {
        bindings_map(self.entries@)
    }

    pub fn new() -> (r: Locals)
        ensures
            r@ == Map::<Seq<char>, nat>::empty(),
    {
        Locals { entries: Vec::new() }
    }

    pub fn clear(&mut self)
        ensures
            final(self)@ == Map::<Seq<char>, nat>::empty(),
    {
        self.entries = Vec::new();
    }

    /// Binds `name` to `typ`, replacing any earlier binding.
    pub fn insert(&mut self, name: String, typ: TypeId)
        ensures
            final(self)@ == old(self)@.insert(name@, typ as nat),
    {
        self.entries.push((name, typ));
        proof {
            assert(self.entries@.drop_last() == old(self).entries@);
        }
    }

    pub fn get(&self, name: &String) -> (r: Option<TypeId>)
        ensures
            r is Some <==> self@.contains_key(name@),
            r is Some ==> self@[name@] == r->Some_0 as nat,
    {
        let ghost e = self.entries@;
        let mut i: usize = self.entries.len();
        proof {
            assert(e.take(i as int) =~= e);
        }
        while i > 0
            invariant
                i <= e.len(),
                e == self.entries@,
                bindings_map(e.take(i as int)).contains_key(name@) == bindings_map(e).contains_key(
                    name@,
                ),
                bindings_map(e.take(i as int)).contains_key(name@) ==> bindings_map(e.take(i as int))[name@]
                    == bindings_map(e)[name@],
            decreases i,
        {
            proof {
                assert(e.take(i as int).drop_last() == e.take(i - 1));
                assert(e.take(i as int).last() == e[i - 1]);
            }
            if self.entries[i - 1].0 == *name {
                return Some(self.entries[i - 1].1);
            }
            i = i - 1;
        }
        proof {
            assert(e.take(0) =~= Seq::<(String, TypeId)>::empty());
        }
        None
    }
}

} // verus!
