//! An ordered map context generic in its value kind: the key-ordered map
//! adapter, with entries strictly ascending by key, direct key lookup, and
//! key-ordered iteration. Its capacity estimate sums the children's.

use vstd::prelude::*;

use crate::context_trait::{self_pointer, ContextTrait, ContextType};
use crate::text::{lex_lt, str_eq_str};
use crate::value::{entries_insert, entries_sorted, lookup_entries};

verus! {

/// The map's capacity estimate: its children's estimates, summed with
/// saturation.
pub open spec fn sum_entry_hints<V: ContextTrait>(s: Seq<(String, V)>) -> usize
    decreases s.len(),
{
    if s.len() == 0 {
        0usize
    } else {
        sum_entry_hints(s.drop_last()).saturating_add(s.last().1.hint_spec())
    }
}

/// A key-ordered map of named context values: each key bound once, entries
/// kept strictly ascending by key.
pub struct OrderedMap<V> {
    entries: Vec<(String, V)>,
}

impl<V: ContextTrait> OrderedMap<V> {
    /// The entries, in ascending key order.
    pub closed spec fn entries_spec(&self) -> Seq<(String, V)> {
        self.entries@
    }

    /// Well-formedness: the entries are strictly ascending by key.
    pub open spec fn wf(&self) -> bool {
        entries_sorted(self.entries_spec())
    }

    /// An empty map.
    pub fn new() -> (r: OrderedMap<V>)
        ensures
            r.wf(),
            r.entries_spec() == Seq::<(String, V)>::empty(),
    {
        OrderedMap { entries: Vec::new() }
    }

    /// Binds `key` to `value`: an existing binding of the same key is
    /// replaced, every other binding is untouched, and the key order is
    /// kept.
    pub fn insert(&mut self, key: String, value: V)
        requires
            old(self).wf(),
        ensures
            final(self).wf(),
            lookup_entries(final(self).entries_spec(), key@) == Some(value),
            forall|k: Seq<char>|
                k != key@ ==> lookup_entries(final(self).entries_spec(), k) == lookup_entries(
                    old(self).entries_spec(),
                    k,
                ),
    {
        entries_insert(&mut self.entries, key, value);
    }

    /// Direct key lookup, as a map-like kind answers one path segment.
    #[verifier::loop_isolation(false)]
    pub fn get<'a>(&'a self, key: &str) -> (r: Option<&'a V>)
        ensures
            (match r {
                Some(v) => lookup_entries(self.entries_spec(), key@) == Some(*v),
                None => lookup_entries(self.entries_spec(), key@) is None,
            }),
    {
        let mut i: usize = 0;
        proof {
            assert(self.entries@.skip(0) =~= self.entries@);
        }
        while i < self.entries.len()
            invariant
                i <= self.entries@.len(),
                lookup_entries(self.entries@, key@) == lookup_entries(
                    self.entries@.skip(i as int),
                    key@,
                ),
            decreases self.entries@.len() - i,
        {
            proof {
                assert(self.entries@.skip(i as int)[0] == self.entries@[i as int]);
                assert(self.entries@.skip(i as int).skip(1) =~= self.entries@.skip(i + 1));
            }
            if str_eq_str(self.entries[i].0.as_str(), key) {
                return Some(&self.entries[i].1);
            }
            i = i + 1;
        }
        None
    }

    /// The (name, view) pairs a loop construct walks: the entries, in
    /// ascending key order when the map is well formed.
    #[verifier::loop_isolation(false)]
    pub fn context_iter<'a>(&'a self) -> (ps: Vec<(String, &'a V)>)
        ensures
            ps@.len() == self.entries_spec().len(),
            forall|i: int|
                0 <= i < ps@.len() ==> (#[trigger] ps@[i]).0@ == self.entries_spec()[i].0@
                    && *ps@[i].1 == self.entries_spec()[i].1,
            self.wf() ==> forall|i: int, j: int|
                0 <= i < j < ps@.len() ==> lex_lt((#[trigger] ps@[i]).0@, (#[trigger] ps@[j]).0@),
    {
        let mut ps: Vec<(String, &'a V)> = Vec::new();
        let mut i: usize = 0;
        while i < self.entries.len()
            invariant
                i <= self.entries@.len(),
                ps@.len() == i,
                forall|j: int|
                    0 <= j < i ==> (#[trigger] ps@[j]).0@ == self.entries@[j].0@ && *ps@[j].1
                        == self.entries@[j].1,
            decreases self.entries@.len() - i,
        {
            let name = self.entries[i].0.clone();
            ps.push((name, &self.entries[i].1));
            i = i + 1;
        }
        ps
    }
}

impl<V: ContextTrait> ContextTrait for OrderedMap<V> {
    open spec fn truthy_spec(&self) -> bool {
        self.entries_spec().len() > 0
    }

    open spec fn rendered(&self) -> Seq<u8> {
        Seq::empty()
    }

    open spec fn hint_spec(&self) -> usize {
        sum_entry_hints(self.entries_spec())
    }

    open spec fn pointer_spec(&self, key: Seq<char>) -> Option<OrderedMap<V>> {
        self_pointer(*self, key)
    }

    open spec fn type_spec(&self) -> ContextType {
        ContextType::Object
    }

    open spec fn len_spec(&self) -> nat {
        self.entries_spec().len()
    }

    fn is_truthy(&self) -> (r: bool) {
        self.entries.len() > 0
    }

    #[verifier::loop_isolation(false)]
    fn render_capacity_hint(&self) -> (n: usize) {
        let mut acc: usize = 0;
        let mut i: usize = 0;
        proof {
            assert(self.entries@.take(0) =~= Seq::<(String, V)>::empty());
        }
        while i < self.entries.len()
            invariant
                i <= self.entries@.len(),
                acc == sum_entry_hints(self.entries@.take(i as int)),
            decreases self.entries@.len() - i,
        {
            proof {
                assert(self.entries@.take(i + 1).drop_last() =~= self.entries@.take(i as int));
                assert(self.entries@.take(i + 1).last() == self.entries@[i as int]);
            }
            let h = self.entries[i].1.render_capacity_hint();
            acc = acc.saturating_add(h);
            i = i + 1;
        }
        proof {
            assert(self.entries@.take(self.entries@.len() as int) =~= self.entries@);
        }
        acc
    }

    fn render(&self, out: &mut Vec<u8>) {
        proof {
            assert(out@ =~= out@ + Seq::<u8>::empty());
        }
    }

    fn pointer<'a>(&'a self, key: &str) -> (r: Option<&'a OrderedMap<V>>) {
        if key.is_empty() || str_eq_str(key, ".") {
            Some(self)
        } else {
            None
        }
    }

    fn get_type(&self) -> (t: ContextType) {
        ContextType::Object
    }

    fn len(&self) -> (n: usize) {
        self.entries.len()
    }
}

} // verus!
