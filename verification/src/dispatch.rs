//! Reflection-free field dispatch for record contexts: every eligible field's
//! external name is fingerprinted with FNV-1a, the (fingerprint, field) rows
//! are kept sorted ascending for binary probing, and a name that misses the
//! table falls back to the flattened fields in declaration order. Two
//! eligible fields whose fingerprints collide are rejected when the table is
//! built.

use vstd::prelude::*;

use crate::context_trait::{self_pointer, ContextTrait, ContextType};
use crate::text::str_eq_str;
use crate::value::CtxValue;

verus! {

/// The 64-bit FNV-1a fingerprint of a byte sequence.
pub open spec fn fnv1a(bytes: Seq<u8>) -> u64
    decreases bytes.len(),
{
    if bytes.len() == 0 {
        0xcbf29ce484222325u64
    } else {
        (fnv1a(bytes.drop_last()) ^ (bytes.last() as u64)).wrapping_mul(0x100000001b3u64)
    }
}

/// The fingerprint of a name: FNV-1a over its UTF-8 bytes.
pub open spec fn name_hash(name: Seq<char>) -> u64 {
    fnv1a(vstd::utf8::encode_utf8(name))
}

/// Computes the fingerprint of `name`, identically at table-build time and
/// at lookup time.
#[verifier::loop_isolation(false)]
pub fn hash_name(name: &str) -> (h: u64)
    ensures
        h == name_hash(name@),
{
    let bytes = name.as_bytes_vec();
    let mut h: u64 = 0xcbf29ce484222325u64;
    let mut i: usize = 0;
    proof {
        assert(bytes@.take(0) =~= Seq::<u8>::empty());
    }
    while i < bytes.len()
        invariant
            i <= bytes@.len(),
            h == fnv1a(bytes@.take(i as int)),
        decreases bytes@.len() - i,
    {
        h = (h ^ (bytes[i] as u64)).wrapping_mul(0x100000001b3u64);
        proof {
            assert(bytes@.take(i + 1).drop_last() =~= bytes@.take(i as int));
            assert(bytes@.take(i + 1).last() == bytes@[i as int]);
        }
        i = i + 1;
    }
    proof {
        assert(bytes@.take(bytes@.len() as int) =~= bytes@);
    }
    h
}

/// One declared field of a record, with its value and its directives:
/// `skip` excludes the field from the contract, `flatten` excludes it from
/// direct dispatch but registers it as a fallback scope whose own keys
/// resolve as if they belonged to the record, `rename` exposes it under an
/// alternate external name, and `callback` names the render routine the
/// consuming engine applies in place of the field value's own render.
pub struct FieldSpec {
    pub name: String,
    pub value: CtxValue,
    pub skip: bool,
    pub flatten: bool,
    pub rename: Option<String>,
    pub callback: Option<u64>,
}

impl FieldSpec {
    /// The external name the field is dispatched under, after any rename.
    pub open spec fn ename(&self) -> Seq<char> {
        match self.rename {
            Some(r) => r@,
            None => self.name@,
        }
    }

    /// Whether the field takes part in direct hashed dispatch.
    pub open spec fn eligible(&self) -> bool {
        !self.skip && !self.flatten
    }

    /// Whether the field counts toward the record's capacity estimate:
    /// every field not skipped outright, flattened ones included.
    pub open spec fn counted(&self) -> bool {
        self.flatten || !self.skip
    }

    /// The external name the field is dispatched under.
    pub fn external_name(&self) -> (r: &String)
        ensures
            r@ == self.ename(),
    {
        match &self.rename {
            Some(r) => r,
            None => &self.name,
        }
    }

    /// A field with no directives: dispatched under its declared name.
    pub fn plain(name: String, value: CtxValue) -> (r: FieldSpec)
        ensures
            r.name == name,
            r.value == value,
            !r.skip,
            !r.flatten,
            r.rename is None,
            r.callback is None,
    {
        FieldSpec { name, value, skip: false, flatten: false, rename: None, callback: None }
    }
}

/// One row of the dispatch table: an eligible field's fingerprint, its
/// position among the declared fields, and its render override.
pub struct DispatchEntry {
    pub hash: u64,
    pub index: usize,
    pub callback: Option<u64>,
}

/// Whether the eligible fields carry pairwise distinct fingerprints.
pub open spec fn no_collision(fields: Seq<FieldSpec>) -> bool {
    forall|i: int, j: int|
        0 <= i < j < fields.len() && (#[trigger] fields[i]).eligible() && (
        #[trigger] fields[j]).eligible() ==> name_hash(fields[i].ename()) != name_hash(
            fields[j].ename(),
        )
}

/// The reason a dispatch table cannot be built.
pub enum BuildError {
    /// Two eligible fields' external names share one fingerprint, so hashed
    /// dispatch could not tell them apart.
    HashCollision,
}

/// Whether `table` is a sound hash-sorted dispatch table for the first `m`
/// fields: rows point at eligible fields among them, carry their
/// fingerprints and callbacks, ascend strictly, and cover every eligible
/// field among the `m`.
pub open spec fn table_wf_upto(table: Seq<DispatchEntry>, fields: Seq<FieldSpec>, m: int) -> bool {
    &&& forall|t: int|
        0 <= t < table.len() ==> {
            let e = #[trigger] table[t];
            &&& e.index < m
            &&& e.index < fields.len()
            &&& fields[e.index as int].eligible()
            &&& e.hash == name_hash(fields[e.index as int].ename())
            &&& e.callback == fields[e.index as int].callback
        }
    &&& forall|t1: int, t2: int|
        0 <= t1 < t2 < table.len() ==> (#[trigger] table[t1]).hash < (#[trigger] table[t2]).hash
    &&& forall|i: int|
        0 <= i < m && i < fields.len() && (#[trigger] fields[i]).eligible() ==> exists|t: int|
            0 <= t < table.len() && (#[trigger] table[t]).index == i
}

/// Adds the row for field `m` to a hash-sorted table, keeping it sorted;
/// a fingerprint already present is refused, and is then a collision among
/// the fields' eligible names.
#[verifier::loop_isolation(false)]
fn table_insert(
    table: &mut Vec<DispatchEntry>,
    h: u64,
    m: usize,
    callback: Option<u64>,
    Ghost(fields): Ghost<Seq<FieldSpec>>,
) -> (ok: bool)
    requires
        m < fields.len(),
        fields[m as int].eligible(),
        h == name_hash(fields[m as int].ename()),
        callback == fields[m as int].callback,
        table_wf_upto(old(table)@, fields, m as int),
    ensures
        !ok ==> !no_collision(fields),
        ok ==> table_wf_upto(final(table)@, fields, m + 1),
{
    let mut q: usize = 0;
    while q < table.len() && table[q].hash < h
        invariant
            q <= table@.len(),
            forall|t: int| 0 <= t < q ==> (#[trigger] table@[t]).hash < h,
        decreases table@.len() - q,
    {
        q = q + 1;
    }
    if q < table.len() && table[q].hash == h {
        proof {
            let i0 = table@[q as int].index as int;
            assert(fields[i0].eligible());
            assert(name_hash(fields[i0].ename()) == name_hash(fields[m as int].ename()));
            assert(i0 < m);
            assert(!no_collision(fields));
        }
        return false;
    }
    let ghost oldt = table@;
    table.insert(q, DispatchEntry { hash: h, index: m, callback });
    proof {
        assert forall|i: int|
            0 <= i < m + 1 && i < fields.len() && (#[trigger] fields[i]).eligible() implies exists|
            t: int,
        |
            0 <= t < table@.len() && (#[trigger] table@[t]).index == i by {
            if i == m {
                assert(table@[q as int].index == i);
            } else {
                let t0 = choose|t: int| 0 <= t < oldt.len() && (#[trigger] oldt[t]).index == i;
                if t0 < q {
                    assert(table@[t0].index == i);
                } else {
                    assert(table@[t0 + 1].index == i);
                }
            }
        }
    }
    true
}

/// A record context: the declared fields, the hash-sorted dispatch table
/// over the eligible ones, and the flattened fields in declaration order.
pub struct Record {
    fields: Vec<FieldSpec>,
    table: Vec<DispatchEntry>,
    flatten: Vec<usize>,
}

impl Record {
    /// The declared fields, in declaration order.
    pub closed spec fn fields_spec(&self) -> Seq<FieldSpec> {
        self.fields@
    }

    /// The dispatch table rows, ascending by fingerprint.
    pub closed spec fn table_spec(&self) -> Seq<DispatchEntry> {
        self.table@
    }

    /// The flattened fields' positions, in declaration order.
    pub closed spec fn flatten_spec(&self) -> Seq<usize> {
        self.flatten@
    }

    /// Well-formedness: every table row points at an eligible field and
    /// carries its fingerprint and callback; rows ascend strictly by
    /// fingerprint; every eligible field has a row; the flatten list holds
    /// exactly the positions of the flattened fields, ascending.
    pub open spec fn wf(&self) -> bool {
        &&& forall|t: int|
            0 <= t < self.table_spec().len() ==> {
                let e = #[trigger] self.table_spec()[t];
                &&& e.index < self.fields_spec().len()
                &&& self.fields_spec()[e.index as int].eligible()
                &&& e.hash == name_hash(self.fields_spec()[e.index as int].ename())
                &&& e.callback == self.fields_spec()[e.index as int].callback
            }
        &&& forall|t1: int, t2: int|
            0 <= t1 < t2 < self.table_spec().len() ==> (#[trigger] self.table_spec()[t1]).hash < (
            #[trigger] self.table_spec()[t2]).hash
        &&& forall|i: int|
            0 <= i < self.fields_spec().len() && (#[trigger] self.fields_spec()[i]).eligible()
                ==> exists|t: int|
                0 <= t < self.table_spec().len() && (#[trigger] self.table_spec()[t]).index == i
        &&& forall|f: int|
            0 <= f < self.flatten_spec().len() ==> {
                let i = #[trigger] self.flatten_spec()[f];
                i < self.fields_spec().len() && self.fields_spec()[i as int].flatten
            }
        &&& forall|f1: int, f2: int|
            0 <= f1 < f2 < self.flatten_spec().len() ==> (#[trigger] self.flatten_spec()[f1]) < (
            #[trigger] self.flatten_spec()[f2])
        &&& forall|i: int|
            0 <= i < self.fields_spec().len() && (#[trigger] self.fields_spec()[i]).flatten
                ==> exists|f: int|
                0 <= f < self.flatten_spec().len() && (#[trigger] self.flatten_spec()[f]) == i
    }

    /// Builds the dispatch table for `fields`: fingerprints of the eligible
    /// fields sorted ascending, the flattened fields collected in
    /// declaration order. Exactly when two eligible fields' fingerprints
    /// collide, nothing is built and the collision is reported.
    #[verifier::loop_isolation(false)]
    pub fn build(fields: Vec<FieldSpec>) -> (r: Result<Record, BuildError>)
        ensures
            (match r {
                Ok(rec) => {
                    &&& rec.wf()
                    &&& rec.fields_spec() == fields@
                    &&& no_collision(fields@)
                },
                Err(e) => {
                    &&& e is HashCollision
                    &&& !no_collision(fields@)
                },
            }),
    {
        let mut table: Vec<DispatchEntry> = Vec::new();
        let mut flat: Vec<usize> = Vec::new();
        let mut m: usize = 0;
        while m < fields.len()
            invariant
                m <= fields@.len(),
                table_wf_upto(table@, fields@, m as int),
                forall|f: int|
                    0 <= f < flat@.len() ==> {
                        let i = #[trigger] flat@[f];
                        i < m && fields@[i as int].flatten
                    },
                forall|f1: int, f2: int|
                    0 <= f1 < f2 < flat@.len() ==> (#[trigger] flat@[f1]) < (#[trigger] flat@[f2]),
                forall|i: int|
                    0 <= i < m && (#[trigger] fields@[i]).flatten ==> exists|f: int|
                        0 <= f < flat@.len() && (#[trigger] flat@[f]) == i,
            decreases fields@.len() - m,
        {
            if fields[m].flatten {
                let ghost oldf = flat@;
                flat.push(m);
                proof {
                    assert(flat@[oldf.len() as int] == m);
                    assert forall|i: int|
                        0 <= i < m + 1 && (#[trigger] fields@[i]).flatten implies exists|f: int|
                        0 <= f < flat@.len() && (#[trigger] flat@[f]) == i by {
                        if i == m {
                            assert(flat@[oldf.len() as int] == i);
                        } else {
                            let f0 = choose|f: int|
                                0 <= f < oldf.len() && (#[trigger] oldf[f]) == i;
                            assert(flat@[f0] == i);
                        }
                    }
                }
            }
            let eligible = !fields[m].skip && !fields[m].flatten;
            if eligible {
                let h = hash_name(fields[m].external_name().as_str());
                let cb = fields[m].callback;
                let ok = table_insert(&mut table, h, m, cb, Ghost(fields@));
                if !ok {
                    return Err(BuildError::HashCollision);
                }
            }
            m = m + 1;
        }
        proof {
            assert forall|i: int, j: int|
                0 <= i < j < fields@.len() && (#[trigger] fields@[i]).eligible() && (
                #[trigger] fields@[j]).eligible() implies name_hash(fields@[i].ename())
                != name_hash(fields@[j].ename()) by {
                let ti = choose|t: int|
                    0 <= t < table@.len() && (#[trigger] table@[t]).index == i;
                let tj = choose|t: int|
                    0 <= t < table@.len() && (#[trigger] table@[t]).index == j;
                assert(table@[ti].hash == name_hash(fields@[i].ename()));
                assert(table@[tj].hash == name_hash(fields@[j].ename()));
                if ti < tj {
                    assert(table@[ti].hash < table@[tj].hash);
                } else if tj < ti {
                    assert(table@[tj].hash < table@[ti].hash);
                }
            }
        }
        Ok(Record { fields, table, flatten: flat })
    }
}

/// Whether some table row carries fingerprint `h`.
pub open spec fn has_hash(table: Seq<DispatchEntry>, h: u64) -> bool {
    exists|t: int| 0 <= t < table.len() && (#[trigger] table[t]).hash == h
}

/// The table row carrying fingerprint `h`.
pub open spec fn hash_row(table: Seq<DispatchEntry>, h: u64) -> DispatchEntry {
    table[choose|t: int| 0 <= t < table.len() && (#[trigger] table[t]).hash == h]
}

/// The resolution the flatten list gives `key`: the first flattened field
/// whose own view resolves it, in declaration order.
pub open spec fn flatten_lookup(
    fields: Seq<FieldSpec>,
    flat: Seq<usize>,
    key: Seq<char>,
) -> Option<CtxValue>
    decreases flat.len(),
{
    if flat.len() == 0 {
        None
    } else if fields[flat[0] as int].value.pointer_spec(key) is Some {
        fields[flat[0] as int].value.pointer_spec(key)
    } else {
        flatten_lookup(fields, flat.skip(1), key)
    }
}

/// A resolved field: the view to render, and the render override the
/// consuming engine applies in place of the view's own render, if the field
/// declares one.
pub struct Hit<'a> {
    pub value: &'a CtxValue,
    pub callback: Option<u64>,
}

impl Record {
    /// Resolves an externally supplied name: the dispatch table is probed by
    /// fingerprint; a miss consults the flattened fields in declaration
    /// order; otherwise there is no match.
    #[verifier::loop_isolation(false)]
    pub fn lookup<'a>(&'a self, name: &str) -> (r: Option<Hit<'a>>)
        requires
            self.wf(),
        ensures
            ({
                let h = name_hash(name@);
                if has_hash(self.table_spec(), h) {
                    let e = hash_row(self.table_spec(), h);
                    match r {
                        Some(hit) => *hit.value == self.fields_spec()[e.index as int].value
                            && hit.callback == e.callback,
                        None => false,
                    }
                } else {
                    match r {
                        Some(hit) => flatten_lookup(self.fields_spec(), self.flatten_spec(), name@)
                            == Some(*hit.value) && hit.callback is None,
                        None => flatten_lookup(
                            self.fields_spec(),
                            self.flatten_spec(),
                            name@,
                        ) is None,
                    }
                }
            }),
    {
        let h = hash_name(name);
        let mut lo: usize = 0;
        let mut hi: usize = self.table.len();
        while lo < hi
            invariant
                lo <= hi <= self.table@.len(),
                forall|t: int| 0 <= t < lo ==> (#[trigger] self.table@[t]).hash < h,
                forall|t: int| hi <= t < self.table@.len() ==> (#[trigger] self.table@[t]).hash > h,
            decreases hi - lo,
        {
            let mid = lo + (hi - lo) / 2;
            let mh = self.table[mid].hash;
            if mh < h {
                lo = mid + 1;
            } else if mh > h {
                hi = mid;
            } else {
                proof {
                    assert(self.table@[mid as int].hash == h);
                    assert(has_hash(self.table@, h));
                    let ct = choose|t: int|
                        0 <= t < self.table@.len() && (#[trigger] self.table@[t]).hash == h;
                    if ct < mid {
                        assert(self.table@[ct].hash < self.table@[mid as int].hash);
                    } else if ct > mid {
                        assert(self.table@[mid as int].hash < self.table@[ct].hash);
                    }
                    assert(hash_row(self.table@, h) == self.table@[mid as int]);
                }
                let e_index = self.table[mid].index;
                let e_cb = self.table[mid].callback;
                return Some(Hit { value: &self.fields[e_index].value, callback: e_cb });
            }
        }
        proof {
            if has_hash(self.table@, h) {
                let ct = choose|t: int|
                    0 <= t < self.table@.len() && (#[trigger] self.table@[t]).hash == h;
                assert(false);
            }
            assert(self.flatten@.skip(0) =~= self.flatten@);
        }
        let mut f: usize = 0;
        while f < self.flatten.len()
            invariant
                f <= self.flatten@.len(),
                flatten_lookup(self.fields@, self.flatten@, name@) == flatten_lookup(
                    self.fields@,
                    self.flatten@.skip(f as int),
                    name@,
                ),
            decreases self.flatten@.len() - f,
        {
            proof {
                assert(self.flatten@.skip(f as int)[0] == self.flatten@[f as int]);
                assert(self.flatten@.skip(f as int).skip(1) =~= self.flatten@.skip(f + 1));
            }
            let fi = self.flatten[f];
            match self.fields[fi].value.pointer(name) {
                Some(v) => {
                    return Some(Hit { value: v, callback: None });
                },
                None => {},
            }
            f = f + 1;
        }
        None
    }
}

/// The pairs iteration yields for a record: each eligible field's external
/// name and value, in declaration order.
pub open spec fn eligible_entries(fields: Seq<FieldSpec>) -> Seq<(Seq<char>, CtxValue)>
    decreases fields.len(),
{
    if fields.len() == 0 {
        Seq::empty()
    } else {
        let prefix = eligible_entries(fields.drop_last());
        if fields.last().eligible() {
            prefix.push((fields.last().ename(), fields.last().value))
        } else {
            prefix
        }
    }
}

/// A record's capacity estimate: the counted fields' estimates, summed with
/// saturation.
pub open spec fn record_hint(fields: Seq<FieldSpec>) -> usize
    decreases fields.len(),
{
    if fields.len() == 0 {
        0usize
    } else {
        let rest = record_hint(fields.drop_last());
        if fields.last().counted() {
            rest.saturating_add(fields.last().value.hint_spec())
        } else {
            rest
        }
    }
}

impl ContextTrait for Record {
    open spec fn truthy_spec(&self) -> bool {
        true
    }

    open spec fn rendered(&self) -> Seq<u8> {
        Seq::empty()
    }

    open spec fn hint_spec(&self) -> usize {
        record_hint(self.fields_spec())
    }

    open spec fn pointer_spec(&self, key: Seq<char>) -> Option<Record> {
        self_pointer(*self, key)
    }

    open spec fn type_spec(&self) -> ContextType {
        ContextType::Object
    }

    open spec fn len_spec(&self) -> nat {
        eligible_entries(self.fields_spec()).len()
    }

    fn is_truthy(&self) -> (r: bool) {
        true
    }

    #[verifier::loop_isolation(false)]
    fn render_capacity_hint(&self) -> (n: usize) {
        let mut acc: usize = 0;
        let mut i: usize = 0;
        proof {
            assert(self.fields@.take(0) =~= Seq::<FieldSpec>::empty());
        }
        while i < self.fields.len()
            invariant
                i <= self.fields@.len(),
                acc == record_hint(self.fields@.take(i as int)),
            decreases self.fields@.len() - i,
        {
            proof {
                assert(self.fields@.take(i + 1).drop_last() =~= self.fields@.take(i as int));
                assert(self.fields@.take(i + 1).last() == self.fields@[i as int]);
            }
            if self.fields[i].flatten || !self.fields[i].skip {
                let h = self.fields[i].value.render_capacity_hint();
                acc = acc.saturating_add(h);
            }
            i = i + 1;
        }
        proof {
            assert(self.fields@.take(self.fields@.len() as int) =~= self.fields@);
        }
        acc
    }

    fn render(&self, out: &mut Vec<u8>) {
        proof {
            assert(out@ =~= out@ + Seq::<u8>::empty());
        }
    }

    fn pointer<'a>(&'a self, key: &str) -> (r: Option<&'a Record>) {
        if key.is_empty() || str_eq_str(key, ".") {
            Some(self)
        } else {
            None
        }
    }

    fn get_type(&self) -> (t: ContextType) {
        ContextType::Object
    }

    #[verifier::loop_isolation(false)]
    fn len(&self) -> (n: usize) {
        let mut count: usize = 0;
        let mut i: usize = 0;
        proof {
            assert(self.fields@.take(0) =~= Seq::<FieldSpec>::empty());
        }
        while i < self.fields.len()
            invariant
                i <= self.fields@.len(),
                count <= i,
                count == eligible_entries(self.fields@.take(i as int)).len(),
            decreases self.fields@.len() - i,
        {
            proof {
                assert(self.fields@.take(i + 1).drop_last() =~= self.fields@.take(i as int));
                assert(self.fields@.take(i + 1).last() == self.fields@[i as int]);
            }
            if !self.fields[i].skip && !self.fields[i].flatten {
                count = count + 1;
            }
            i = i + 1;
        }
        proof {
            assert(self.fields@.take(self.fields@.len() as int) =~= self.fields@);
        }
        count
    }
}

impl Record {
    /// The (name, view) pairs a loop construct walks for a record: each
    /// eligible field's external name and value, in declaration order.
    #[verifier::loop_isolation(false)]
    pub fn context_iter<'a>(&'a self) -> (ps: Vec<(String, &'a CtxValue)>)
        ensures
            ps@.len() == self.len_spec(),
            forall|i: int|
                0 <= i < ps@.len() ==> (#[trigger] ps@[i]).0@ == eligible_entries(
                    self.fields_spec(),
                )[i].0 && *ps@[i].1 == eligible_entries(self.fields_spec())[i].1,
    {
        let mut ps: Vec<(String, &'a CtxValue)> = Vec::new();
        let mut i: usize = 0;
        proof {
            assert(self.fields@.take(0) =~= Seq::<FieldSpec>::empty());
        }
        while i < self.fields.len()
            invariant
                i <= self.fields@.len(),
                ps@.len() == eligible_entries(self.fields@.take(i as int)).len(),
                forall|j: int|
                    0 <= j < ps@.len() ==> (#[trigger] ps@[j]).0@ == eligible_entries(
                        self.fields@.take(i as int),
                    )[j].0 && *ps@[j].1 == eligible_entries(self.fields@.take(i as int))[j].1,
            decreases self.fields@.len() - i,
        {
            proof {
                assert(self.fields@.take(i + 1).drop_last() =~= self.fields@.take(i as int));
                assert(self.fields@.take(i + 1).last() == self.fields@[i as int]);
            }
            if !self.fields[i].skip && !self.fields[i].flatten {
                let name = self.fields[i].external_name().clone();
                ps.push((name, &self.fields[i].value));
            }
            i = i + 1;
        }
        proof {
            assert(self.fields@.take(self.fields@.len() as int) =~= self.fields@);
        }
        ps
    }
}

} // verus!
