//! The capability contract every renderable context value implements:
//! truthiness for conditional sections, an output-size estimate, byte-level
//! text rendering into a caller-supplied sink, single-segment path lookup,
//! type classification, and cardinality.

use vstd::prelude::*;

verus! {

/// Classification of a context value, mirroring the JSON data kinds.
#[derive(Clone, Copy, PartialEq, Eq, Structural, Debug)]
pub enum ContextType {
    Object,
    Array,
    Number,
    String,
    Bool,
    Null,
}

/// The path-lookup result every kind owes by default: the receiver itself for
/// the segment `"."` or the empty segment, and no match otherwise.
pub open spec fn self_pointer<T>(v: T, key: Seq<char>) -> Option<T> {
    if key.len() == 0 || key == "."@ {
        Some(v)
    } else {
        None
    }
}

/// A type whose values can stand in a context tree consumed by a template
/// engine. Each operation is pinned to a spec-level model that the
/// implementing kind supplies.
pub trait ContextTrait: Sized {
    /// Whether this value counts as present for a conditional section.
    spec fn truthy_spec(&self) -> bool;

    /// The exact bytes `render` emits for this value.
    spec fn rendered(&self) -> Seq<u8>;

    /// The byte estimate `render_capacity_hint` reports.
    spec fn hint_spec(&self) -> usize;

    /// The value a single path segment resolves to, if any.
    spec fn pointer_spec(&self, key: Seq<char>) -> Option<Self>;

    /// The classification `get_type` reports.
    spec fn type_spec(&self) -> ContextType;

    /// The cardinality `len` reports.
    spec fn len_spec(&self) -> nat;

    /// Whether this value counts as present when a conditional template
    /// section asks.
    fn is_truthy(&self) -> (r: bool)
        ensures
            r == self.truthy_spec(),
    ;

    /// An estimate, in bytes, of what `render` will emit; callers use it to
    /// preallocate output buffers.
    fn render_capacity_hint(&self) -> (n: usize)
        ensures
            n == self.hint_spec(),
    ;

    /// Writes the textual form of this value to `out`; kinds with no direct
    /// text form write nothing.
    fn render(&self, out: &mut Vec<u8>)
        ensures
            final(out)@ == old(out)@ + self.rendered(),
    ;

    /// Resolves one path segment; `"."` and the empty segment name the
    /// receiver itself, for every implementing kind.
    fn pointer<'a>(&'a self, key: &str) -> (r: Option<&'a Self>)
        ensures
            (match r {
                Some(v) => self.pointer_spec(key@) == Some(*v),
                None => self.pointer_spec(key@) is None,
            }),
            (key@.len() == 0 || key@ == "."@) ==> r == Some(self),
    ;

    /// The classification of this value.
    fn get_type(&self) -> (t: ContextType)
        ensures
            t == self.type_spec(),
    ;

    /// The cardinality of this value: items of a sequence or map, fields of a
    /// record, characters of a string, one for scalars, zero for absence.
    fn len(&self) -> (n: usize)
        ensures
            n == self.len_spec(),
    ;
}

} // verus!
