//! The closed tree of context values: the shape a heterogeneous context
//! takes once adapted, with map-like nodes carrying their entries in key
//! order. Path lookup, key-ordered iteration, and the ordered-map builder
//! live here.

use vstd::prelude::*;

use crate::context_trait::{ContextTrait, ContextType};
use crate::text::{bool_text, dec_chars, dec_text, dec_digits, dec_str_u64, lex_lt,
    push_bool, push_dec_i64, push_dec_u64, str_eq_str, str_lex_lt, lemma_lex_lt_trichotomy,
    lemma_lex_lt_trans};

verus! {

/// A numeric context value. Integers carry their value; a non-integral
/// number enters the tree with its canonical text and its truthiness already
/// fixed, since the library does not redo the host's non-integral arithmetic.
pub enum Number {
    Int(i64),
    UInt(u64),
    Real { text: String, truthy: bool },
}

impl ContextTrait for Number {
    open spec fn truthy_spec(&self) -> bool {
        match self {
            Number::Int(i) => *i != 0,
            Number::UInt(u) => *u != 0,
            Number::Real { text: _, truthy } => *truthy,
        }
    }

    open spec fn rendered(&self) -> Seq<u8> {
        match self {
            Number::Int(i) => dec_text(*i as int),
            Number::UInt(u) => dec_digits(*u as nat),
            Number::Real { text, truthy: _ } => vstd::utf8::encode_utf8(text@),
        }
    }

    open spec fn hint_spec(&self) -> usize {
        if self.truthy_spec() {
            5
        } else {
            0
        }
    }

    open spec fn pointer_spec(&self, key: Seq<char>) -> Option<Number> {
        crate::context_trait::self_pointer(*self, key)
    }

    open spec fn type_spec(&self) -> ContextType {
        ContextType::Number
    }

    open spec fn len_spec(&self) -> nat {
        1
    }

    fn is_truthy(&self) -> (r: bool) {
        match self {
            Number::Int(i) => *i != 0,
            Number::UInt(u) => *u != 0,
            Number::Real { text: _, truthy } => *truthy,
        }
    }

    fn render_capacity_hint(&self) -> (n: usize) {
        if self.is_truthy() {
            5
        } else {
            0
        }
    }

    fn render(&self, out: &mut Vec<u8>) {
        match self {
            Number::Int(i) => push_dec_i64(*i, out),
            Number::UInt(u) => push_dec_u64(*u, out),
            Number::Real { text, truthy: _ } => {
                let mut bytes = text.as_str().as_bytes_vec();
                out.append(&mut bytes);
            },
        }
    }

    fn pointer<'a>(&'a self, key: &str) -> (r: Option<&'a Number>) {
        if key.is_empty() || str_eq_str(key, ".") {
            Some(self)
        } else {
            None
        }
    }

    fn get_type(&self) -> (t: ContextType) {
        ContextType::Number
    }

    fn len(&self) -> (n: usize) {
        1
    }
}

/// A context value of any kind, as one closed tree. A map-like node holds
/// its entries sorted by key; `entries_insert` is the builder that keeps
/// that order.
pub enum CtxValue {
    Null,
    Bool(bool),
    Num(Number),
    Str(String),
    Array(Vec<CtxValue>),
    Object(Vec<(String, CtxValue)>),
}

/// Whether a map node's entries are strictly ascending by key: the order
/// iteration yields, with no key twice.
pub open spec fn entries_sorted<V>(s: Seq<(String, V)>) -> bool {
    forall|i: int, j: int|
        0 <= i < j < s.len() ==> lex_lt((#[trigger] s[i]).0@, (#[trigger] s[j]).0@)
}

/// The value bound to `key`: that of the first entry whose key matches.
pub open spec fn lookup_entries<V>(s: Seq<(String, V)>, key: Seq<char>) -> Option<V>
    decreases s.len(),
{
    if s.len() == 0 {
        None
    } else if s[0].0@ == key {
        Some(s[0].1)
    } else {
        lookup_entries(s.skip(1), key)
    }
}

/// Whether some entry binds `key`.
pub open spec fn has_key<V>(s: Seq<(String, V)>, key: Seq<char>) -> bool {
    lookup_entries(s, key) is Some
}

/// In a sorted entry list no key appears twice.
pub proof fn lemma_sorted_keys_unique<V>(s: Seq<(String, V)>, i: int, j: int)
    requires
        entries_sorted(s),
        0 <= i < s.len(),
        0 <= j < s.len(),
        i != j,
    ensures
        s[i].0@ != s[j].0@,
{
    if i < j {
        lemma_lex_lt_trichotomy(s[i].0@, s[j].0@);
    } else {
        lemma_lex_lt_trichotomy(s[j].0@, s[i].0@);
    }
}

/// A key is bound in an entry list exactly when some entry carries it.
pub proof fn lemma_has_key_index<V>(s: Seq<(String, V)>, key: Seq<char>)
    ensures
        has_key(s, key) <==> exists|i: int| 0 <= i < s.len() && (#[trigger] s[i]).0@ == key,
    decreases s.len(),
{
    if s.len() > 0 {
        lemma_has_key_index(s.skip(1), key);
        if s[0].0@ == key {
        } else {
            if exists|i: int| 0 <= i < s.len() && (#[trigger] s[i]).0@ == key {
                let w = choose|i: int| 0 <= i < s.len() && (#[trigger] s[i]).0@ == key;
                assert(s.skip(1)[w - 1].0@ == key);
            }
            if has_key(s.skip(1), key) {
                let w = choose|i: int|
                    0 <= i < s.skip(1).len() && (#[trigger] s.skip(1)[i]).0@ == key;
                assert(s[w + 1].0@ == key);
            }
        }
    }
}

/// Lookup walks a concatenation left part first: the right part is consulted
/// only for a key the left part does not bind.
pub proof fn lemma_lookup_split<V>(
    a: Seq<(String, V)>,
    b: Seq<(String, V)>,
    key: Seq<char>,
)
    ensures
        lookup_entries(a + b, key) == (if has_key(a, key) {
            lookup_entries(a, key)
        } else {
            lookup_entries(b, key)
        }),
    decreases a.len(),
{
    if a.len() == 0 {
        assert(a + b =~= b);
    } else {
        assert((a + b)[0] == a[0]);
        if a[0].0@ == key {
        } else {
            assert((a + b).skip(1) =~= a.skip(1) + b);
            lemma_lookup_split(a.skip(1), b, key);
        }
    }
}

/// Inserts a binding of `key` to `value` into a key-sorted entry list,
/// keeping it sorted; an existing binding of the same key is replaced, and
/// every other binding is untouched.
#[verifier::loop_isolation(false)]
pub fn entries_insert<V>(entries: &mut Vec<(String, V)>, key: String, value: V)
    requires
        entries_sorted(old(entries)@),
    ensures
        entries_sorted(final(entries)@),
        lookup_entries(final(entries)@, key@) == Some(value),
        forall|k: Seq<char>|
            k != key@ ==> lookup_entries(final(entries)@, k) == lookup_entries(
                old(entries)@,
                k,
            ),
{
    let ghost olds = entries@;
    let mut p: usize = 0;
    while p < entries.len() && str_lex_lt(entries[p].0.as_str(), key.as_str())
        invariant
            p <= entries@.len(),
            forall|j: int| 0 <= j < p ==> lex_lt((#[trigger] entries@[j]).0@, key@),
        decreases entries@.len() - p,
    {
        p = p + 1;
    }
    proof {
        assert forall|j: int| 0 <= j < p implies (#[trigger] olds[j]).0@ != key@ by {
            lemma_lex_lt_trichotomy(olds[j].0@, key@);
        }
        lemma_has_key_index(olds.take(p as int), key@);
        assert(!has_key(olds.take(p as int), key@));
    }
    let replacing = p < entries.len() && str_eq_str(entries[p].0.as_str(), key.as_str());
    if replacing {
        entries.remove(p);
        entries.insert(p, (key, value));
        proof {
            let news = entries@;
            assert(news =~= olds.update(p as int, (key, value)));
            assert(news =~= olds.take(p as int) + (seq![news[p as int]] + olds.skip(p + 1)));
            assert(olds =~= olds.take(p as int) + (seq![olds[p as int]] + olds.skip(p + 1)));
            assert forall|i: int, j: int|
                0 <= i < j < news.len() implies lex_lt(
                (#[trigger] news[i]).0@,
                (#[trigger] news[j]).0@,
            ) by {
                assert(news[i].0@ == olds[i].0@);
                assert(news[j].0@ == olds[j].0@);
            }
            lemma_lookup_split(olds.take(p as int), seq![news[p as int]] + olds.skip(p + 1), key@);
            assert((seq![news[p as int]] + olds.skip(p + 1))[0] == news[p as int]);
            assert(lookup_entries(news, key@) == Some(value));
            assert forall|k: Seq<char>| k != key@ implies lookup_entries(news, k)
                == lookup_entries(olds, k) by {
                lemma_lookup_split(olds.take(p as int), seq![news[p as int]] + olds.skip(p + 1), k);
                lemma_lookup_split(olds.take(p as int), seq![olds[p as int]] + olds.skip(p + 1), k);
                assert((seq![news[p as int]] + olds.skip(p + 1)).skip(1) =~= olds.skip(p + 1));
                assert((seq![olds[p as int]] + olds.skip(p + 1)).skip(1) =~= olds.skip(p + 1));
            }
        }
    } else {
        proof {
            if p < olds.len() {
                lemma_lex_lt_trichotomy(olds[p as int].0@, key@);
                assert(lex_lt(key@, olds[p as int].0@));
            }
        }
        entries.insert(p, (key, value));
        proof {
            let news = entries@;
            assert(news =~= olds.take(p as int) + (seq![(key, value)] + olds.skip(p as int)));
            assert(olds =~= olds.take(p as int) + olds.skip(p as int));
            assert forall|i: int, j: int|
                0 <= i < j < news.len() implies lex_lt(
                (#[trigger] news[i]).0@,
                (#[trigger] news[j]).0@,
            ) by {
                if i < p && j < p {
                    assert(news[i].0@ == olds[i].0@);
                    assert(news[j].0@ == olds[j].0@);
                } else if i < p && j == p {
                    assert(news[i].0@ == olds[i].0@);
                } else if i < p && j > p {
                    assert(news[i].0@ == olds[i].0@);
                    assert(news[j].0@ == olds[j - 1].0@);
                } else if i == p {
                    assert(news[j].0@ == olds[j - 1].0@);
                    if j - 1 > p {
                        lemma_lex_lt_trans(key@, olds[p as int].0@, olds[j - 1].0@);
                    }
                } else {
                    assert(news[i].0@ == olds[i - 1].0@);
                    assert(news[j].0@ == olds[j - 1].0@);
                }
            }
            lemma_lookup_split(olds.take(p as int), seq![(key, value)] + olds.skip(p as int), key@);
            assert((seq![(key, value)] + olds.skip(p as int))[0] == (key, value));
            assert(lookup_entries(news, key@) == Some(value));
            assert forall|k: Seq<char>| k != key@ implies lookup_entries(news, k)
                == lookup_entries(olds, k) by {
                lemma_lookup_split(olds.take(p as int), seq![(key, value)] + olds.skip(p as int), k);
                lemma_lookup_split(olds.take(p as int), olds.skip(p as int), k);
                assert((seq![(key, value)] + olds.skip(p as int)).skip(1) =~= olds.skip(p as int));
            }
        }
    }
}

/// The render-capacity estimate of a sequence node: its children's
/// estimates, summed with saturation.
pub open spec fn sum_value_hints(s: Seq<CtxValue>) -> usize
    decreases s,
{
    if s.len() == 0 {
        0usize
    } else {
        sum_value_hints(s.drop_last()).saturating_add(s.last().hint_spec())
    }
}

impl ContextTrait for CtxValue {
    open spec fn truthy_spec(&self) -> bool {
        match self {
            CtxValue::Null => false,
            CtxValue::Bool(b) => *b,
            CtxValue::Num(n) => n.truthy_spec(),
            CtxValue::Str(s) => s@.len() > 0,
            CtxValue::Array(items) => items@.len() > 0,
            CtxValue::Object(entries) => entries@.len() > 0,
        }
    }

    open spec fn rendered(&self) -> Seq<u8> {
        match self {
            CtxValue::Null => Seq::empty(),
            CtxValue::Bool(b) => bool_text(*b),
            CtxValue::Num(n) => n.rendered(),
            CtxValue::Str(s) => vstd::utf8::encode_utf8(s@),
            CtxValue::Array(_) => Seq::empty(),
            CtxValue::Object(_) => Seq::empty(),
        }
    }

    open spec fn hint_spec(&self) -> usize
        decreases self,
    {
        match self {
            CtxValue::Null => 0usize,
            CtxValue::Bool(_) => 5usize,
            CtxValue::Num(n) => n.hint_spec(),
            CtxValue::Str(s) => vstd::utf8::encode_utf8(s@).len() as usize,
            CtxValue::Array(items) => sum_value_hints(items@),
            CtxValue::Object(_) => 0usize,
        }
    }

    open spec fn pointer_spec(&self, key: Seq<char>) -> Option<CtxValue> {
        if key.len() == 0 || key == "."@ {
            Some(*self)
        } else {
            match self {
                CtxValue::Object(entries) => lookup_entries(entries@, key),
                _ => None,
            }
        }
    }

    open spec fn type_spec(&self) -> ContextType {
        match self {
            CtxValue::Null => ContextType::Null,
            CtxValue::Bool(_) => ContextType::Bool,
            CtxValue::Num(_) => ContextType::Number,
            CtxValue::Str(_) => ContextType::String,
            CtxValue::Array(_) => ContextType::Array,
            CtxValue::Object(_) => ContextType::Object,
        }
    }

    open spec fn len_spec(&self) -> nat {
        match self {
            CtxValue::Null => 0,
            CtxValue::Bool(_) => 1,
            CtxValue::Num(_) => 1,
            CtxValue::Str(s) => vstd::utf8::encode_utf8(s@).len(),
            CtxValue::Array(items) => items@.len(),
            CtxValue::Object(entries) => entries@.len(),
        }
    }

    fn is_truthy(&self) -> (r: bool) {
        match self {
            CtxValue::Null => false,
            CtxValue::Bool(b) => *b,
            CtxValue::Num(n) => n.is_truthy(),
            CtxValue::Str(s) => !s.as_str().is_empty(),
            CtxValue::Array(items) => items.len() > 0,
            CtxValue::Object(entries) => entries.len() > 0,
        }
    }

    #[verifier::loop_isolation(false)]
    fn render_capacity_hint(&self) -> (n: usize)
        decreases self,
    {
        match self {
            CtxValue::Null => 0,
            CtxValue::Bool(_) => 5,
            CtxValue::Num(n) => n.render_capacity_hint(),
            CtxValue::Str(s) => s.as_str().as_bytes_vec().len(),
            CtxValue::Array(items) => {
                let mut acc: usize = 0;
                let mut i: usize = 0;
                proof {
                    assert(items@.take(0) =~= Seq::<CtxValue>::empty());
                }
                while i < items.len()
                    invariant
                        i <= items@.len(),
                        acc == sum_value_hints(items@.take(i as int)),
                    decreases items@.len() - i,
                {
                    proof {
                        assert(decreases_to!(*self => items@[i as int]));
                    }
                    let h = items[i].render_capacity_hint();
                    acc = acc.saturating_add(h);
                    proof {
                        assert(items@.take(i + 1).drop_last() =~= items@.take(i as int));
                        assert(items@.take(i + 1).last() == items@[i as int]);
                    }
                    i = i + 1;
                }
                proof {
                    assert(items@.take(items@.len() as int) =~= items@);
                }
                acc
            },
            CtxValue::Object(_) => 0,
        }
    }

    fn render(&self, out: &mut Vec<u8>) {
        match self {
            CtxValue::Bool(b) => push_bool(*b, out),
            CtxValue::Num(n) => n.render(out),
            CtxValue::Str(s) => {
                let mut bytes = s.as_str().as_bytes_vec();
                out.append(&mut bytes);
            },
            _ => {
                proof {
                    assert(out@ =~= out@ + Seq::<u8>::empty());
                }
            },
        }
    }

    #[verifier::loop_isolation(false)]
    fn pointer<'a>(&'a self, key: &str) -> (r: Option<&'a CtxValue>) {
        if key.is_empty() || str_eq_str(key, ".") {
            return Some(self);
        }
        match self {
            CtxValue::Object(entries) => {
                let mut i: usize = 0;
                proof {
                    assert(entries@.skip(0) =~= entries@);
                }
                while i < entries.len()
                    invariant
                        i <= entries@.len(),
                        lookup_entries(entries@, key@) == lookup_entries(
                            entries@.skip(i as int),
                            key@,
                        ),
                    decreases entries@.len() - i,
                {
                    proof {
                        assert(entries@.skip(i as int)[0] == entries@[i as int]);
                        assert(entries@.skip(i as int).skip(1) =~= entries@.skip(i + 1));
                    }
                    if str_eq_str(entries[i].0.as_str(), key) {
                        proof {
                            assert(entries@.skip(i as int)[0].0@ == key@);
                            assert(lookup_entries(entries@.skip(i as int), key@) == Some(
                                entries@[i as int].1,
                            ));
                        }
                        return Some(&entries[i].1);
                    }
                    i = i + 1;
                }
                None
            },
            _ => None,
        }
    }

    fn get_type(&self) -> (t: ContextType) {
        match self {
            CtxValue::Null => ContextType::Null,
            CtxValue::Bool(_) => ContextType::Bool,
            CtxValue::Num(_) => ContextType::Number,
            CtxValue::Str(_) => ContextType::String,
            CtxValue::Array(_) => ContextType::Array,
            CtxValue::Object(_) => ContextType::Object,
        }
    }

    fn len(&self) -> (n: usize) {
        match self {
            CtxValue::Null => 0,
            CtxValue::Bool(_) => 1,
            CtxValue::Num(_) => 1,
            CtxValue::Str(s) => s.as_str().as_bytes_vec().len(),
            CtxValue::Array(items) => items.len(),
            CtxValue::Object(entries) => entries.len(),
        }
    }
}

impl CtxValue {
    /// The (name, view) pairs a loop construct walks: index names for a
    /// sequence node, keys in stored order for a map node, none for scalar
    /// kinds. For a sorted map node the pairs come out in ascending key
    /// order.
    #[verifier::loop_isolation(false)]
    pub fn context_iter<'a>(&'a self) -> (r: Option<Vec<(String, &'a CtxValue)>>)
        ensures
            (match r {
                Some(ps) => {
                    &&& ps@.len() == self.len_spec()
                    &&& (match self {
                        CtxValue::Array(items) => forall|i: int|
                            0 <= i < ps@.len() ==> (#[trigger] ps@[i]).0@ == dec_chars(
                                i as nat,
                            ) && *ps@[i].1 == items@[i],
                        CtxValue::Object(entries) => forall|i: int|
                            0 <= i < ps@.len() ==> (#[trigger] ps@[i]).0@ == entries@[i].0@
                                && *ps@[i].1 == entries@[i].1,
                        _ => false,
                    })
                },
                None => !(self is Array) && !(self is Object),
            }),
            (match (self, r) {
                (CtxValue::Object(entries), Some(ps)) => entries_sorted(entries@) ==> forall|
                    i: int,
                    j: int,
                |
                    0 <= i < j < ps@.len() ==> lex_lt((#[trigger] ps@[i]).0@, (#[trigger] ps@[j]).0@),
                _ => true,
            }),
    {
        match self {
            CtxValue::Array(items) => {
                let mut ps: Vec<(String, &'a CtxValue)> = Vec::new();
                let mut i: usize = 0;
                while i < items.len()
                    invariant
                        i <= items@.len(),
                        ps@.len() == i,
                        forall|j: int|
                            0 <= j < i ==> (#[trigger] ps@[j]).0@ == dec_chars(j as nat)
                                && *ps@[j].1 == items@[j],
                    decreases items@.len() - i,
                {
                    let name = dec_str_u64(i as u64);
                    ps.push((name, &items[i]));
                    i = i + 1;
                }
                Some(ps)
            },
            CtxValue::Object(entries) => {
                let mut ps: Vec<(String, &'a CtxValue)> = Vec::new();
                let mut i: usize = 0;
                while i < entries.len()
                    invariant
                        i <= entries@.len(),
                        ps@.len() == i,
                        forall|j: int|
                            0 <= j < i ==> (#[trigger] ps@[j]).0@ == entries@[j].0@ && *ps@[j].1
                                == entries@[j].1,
                    decreases entries@.len() - i,
                {
                    let name = entries[i].0.clone();
                    ps.push((name, &entries[i].1));
                    i = i + 1;
                }
                Some(ps)
            },
            _ => None,
        }
    }
}

/// The absence kind is falsy and renders nothing.
pub proof fn lemma_null_renders_empty()
    ensures
        !(CtxValue::Null).truthy_spec(),
        (CtxValue::Null).rendered() == Seq::<u8>::empty(),
{
}

} // verus!
