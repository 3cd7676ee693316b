//! Contract implementations for the built-in kinds: integers, booleans,
//! strings, the unit (absence) value, optional and fallible wrappers,
//! sequences, name/value pairs, and transparent indirections.

use vstd::prelude::*;

use crate::context_trait::{self_pointer, ContextTrait, ContextType};
use crate::text::{bool_text, dec_chars, dec_text, dec_digits, dec_str_u64, push_bool,
    push_dec_i64, push_dec_i128, push_dec_u64, push_dec_u128, str_eq_str};

verus! {

/// The render-capacity estimate of a sequence: its children's estimates,
/// summed with saturation.
pub open spec fn sum_hints<T: ContextTrait>(s: Seq<T>) -> usize
    decreases s.len(),
{
    if s.len() == 0 {
        0usize
    } else {
        sum_hints(s.drop_last()).saturating_add(s.last().hint_spec())
    }
}

impl ContextTrait for u64 {
    open spec fn truthy_spec(&self) -> bool {
        *self != 0
    }

    open spec fn rendered(&self) -> Seq<u8> {
        dec_digits(*self as nat)
    }

    open spec fn hint_spec(&self) -> usize {
        5
    }

    open spec fn pointer_spec(&self, key: Seq<char>) -> Option<u64> {
        self_pointer(*self, key)
    }

    open spec fn type_spec(&self) -> ContextType {
        ContextType::Number
    }

    open spec fn len_spec(&self) -> nat {
        1
    }

    fn is_truthy(&self) -> (r: bool) {
        *self != 0
    }

    fn render_capacity_hint(&self) -> (n: usize) {
        5
    }

    fn render(&self, out: &mut Vec<u8>) {
        push_dec_u64(*self, out);
    }

    fn pointer<'a>(&'a self, key: &str) -> (r: Option<&'a u64>) {
        if key.is_empty() || str_eq_str(key, ".") {
            Some(self)
        } else {
            None
        }
    }

    fn get_type(&self) -> (t: ContextType) {
        ContextType::Number
    }

    fn len(&self) -> (n: usize) {
        1
    }
}

impl ContextTrait for i64 {
    open spec fn truthy_spec(&self) -> bool {
        *self != 0
    }

    open spec fn rendered(&self) -> Seq<u8> {
        dec_text(*self as int)
    }

    open spec fn hint_spec(&self) -> usize {
        5
    }

    open spec fn pointer_spec(&self, key: Seq<char>) -> Option<i64> {
        self_pointer(*self, key)
    }

    open spec fn type_spec(&self) -> ContextType {
        ContextType::Number
    }

    open spec fn len_spec(&self) -> nat {
        1
    }

    fn is_truthy(&self) -> (r: bool) {
        *self != 0
    }

    fn render_capacity_hint(&self) -> (n: usize) {
        5
    }

    fn render(&self, out: &mut Vec<u8>) {
        push_dec_i64(*self, out);
    }

    fn pointer<'a>(&'a self, key: &str) -> (r: Option<&'a i64>) {
        if key.is_empty() || str_eq_str(key, ".") {
            Some(self)
        } else {
            None
        }
    }

    fn get_type(&self) -> (t: ContextType) {
        ContextType::Number
    }

    fn len(&self) -> (n: usize) {
        1
    }
}

impl ContextTrait for u128 {
    open spec fn truthy_spec(&self) -> bool {
        *self != 0
    }

    open spec fn rendered(&self) -> Seq<u8> {
        dec_digits(*self as nat)
    }

    open spec fn hint_spec(&self) -> usize {
        5
    }

    open spec fn pointer_spec(&self, key: Seq<char>) -> Option<u128> {
        self_pointer(*self, key)
    }

    open spec fn type_spec(&self) -> ContextType {
        ContextType::Number
    }

    open spec fn len_spec(&self) -> nat {
        1
    }

    fn is_truthy(&self) -> (r: bool) {
        *self != 0
    }

    fn render_capacity_hint(&self) -> (n: usize) {
        5
    }

    fn render(&self, out: &mut Vec<u8>) {
        push_dec_u128(*self, out);
    }

    fn pointer<'a>(&'a self, key: &str) -> (r: Option<&'a u128>) {
        if key.is_empty() || str_eq_str(key, ".") {
            Some(self)
        } else {
            None
        }
    }

    fn get_type(&self) -> (t: ContextType) {
        ContextType::Number
    }

    fn len(&self) -> (n: usize) {
        1
    }
}

impl ContextTrait for i128 {
    open spec fn truthy_spec(&self) -> bool {
        *self != 0
    }

    open spec fn rendered(&self) -> Seq<u8> {
        dec_text(*self as int)
    }

    open spec fn hint_spec(&self) -> usize {
        5
    }

    open spec fn pointer_spec(&self, key: Seq<char>) -> Option<i128> {
        self_pointer(*self, key)
    }

    open spec fn type_spec(&self) -> ContextType {
        ContextType::Number
    }

    open spec fn len_spec(&self) -> nat {
        1
    }

    fn is_truthy(&self) -> (r: bool) {
        *self != 0
    }

    fn render_capacity_hint(&self) -> (n: usize) {
        5
    }

    fn render(&self, out: &mut Vec<u8>) {
        push_dec_i128(*self, out);
    }

    fn pointer<'a>(&'a self, key: &str) -> (r: Option<&'a i128>) {
        if key.is_empty() || str_eq_str(key, ".") {
            Some(self)
        } else {
            None
        }
    }

    fn get_type(&self) -> (t: ContextType) {
        ContextType::Number
    }

    fn len(&self) -> (n: usize) {
        1
    }
}

impl ContextTrait for u8 {
    open spec fn truthy_spec(&self) -> bool {
        *self != 0
    }

    open spec fn rendered(&self) -> Seq<u8> {
        dec_digits(*self as nat)
    }

    open spec fn hint_spec(&self) -> usize {
        5
    }

    open spec fn pointer_spec(&self, key: Seq<char>) -> Option<u8> {
        self_pointer(*self, key)
    }

    open spec fn type_spec(&self) -> ContextType {
        ContextType::Number
    }

    open spec fn len_spec(&self) -> nat {
        1
    }

    fn is_truthy(&self) -> (r: bool) {
        *self != 0
    }

    fn render_capacity_hint(&self) -> (n: usize) {
        5
    }

    fn render(&self, out: &mut Vec<u8>) {
        push_dec_u64(*self as u64, out);
    }

    fn pointer<'a>(&'a self, key: &str) -> (r: Option<&'a u8>) {
        if key.is_empty() || str_eq_str(key, ".") {
            Some(self)
        } else {
            None
        }
    }

    fn get_type(&self) -> (t: ContextType) {
        ContextType::Number
    }

    fn len(&self) -> (n: usize) {
        1
    }
}

impl ContextTrait for u16 {
    open spec fn truthy_spec(&self) -> bool {
        *self != 0
    }

    open spec fn rendered(&self) -> Seq<u8> {
        dec_digits(*self as nat)
    }

    open spec fn hint_spec(&self) -> usize {
        5
    }

    open spec fn pointer_spec(&self, key: Seq<char>) -> Option<u16> {
        self_pointer(*self, key)
    }

    open spec fn type_spec(&self) -> ContextType {
        ContextType::Number
    }

    open spec fn len_spec(&self) -> nat {
        1
    }

    fn is_truthy(&self) -> (r: bool) {
        *self != 0
    }

    fn render_capacity_hint(&self) -> (n: usize) {
        5
    }

    fn render(&self, out: &mut Vec<u8>) {
        push_dec_u64(*self as u64, out);
    }

    fn pointer<'a>(&'a self, key: &str) -> (r: Option<&'a u16>) {
        if key.is_empty() || str_eq_str(key, ".") {
            Some(self)
        } else {
            None
        }
    }

    fn get_type(&self) -> (t: ContextType) {
        ContextType::Number
    }

    fn len(&self) -> (n: usize) {
        1
    }
}

impl ContextTrait for u32 {
    open spec fn truthy_spec(&self) -> bool {
        *self != 0
    }

    open spec fn rendered(&self) -> Seq<u8> {
        dec_digits(*self as nat)
    }

    open spec fn hint_spec(&self) -> usize {
        5
    }

    open spec fn pointer_spec(&self, key: Seq<char>) -> Option<u32> {
        self_pointer(*self, key)
    }

    open spec fn type_spec(&self) -> ContextType {
        ContextType::Number
    }

    open spec fn len_spec(&self) -> nat {
        1
    }

    fn is_truthy(&self) -> (r: bool) {
        *self != 0
    }

    fn render_capacity_hint(&self) -> (n: usize) {
        5
    }

    fn render(&self, out: &mut Vec<u8>) {
        push_dec_u64(*self as u64, out);
    }

    fn pointer<'a>(&'a self, key: &str) -> (r: Option<&'a u32>) {
        if key.is_empty() || str_eq_str(key, ".") {
            Some(self)
        } else {
            None
        }
    }

    fn get_type(&self) -> (t: ContextType) {
        ContextType::Number
    }

    fn len(&self) -> (n: usize) {
        1
    }
}

impl ContextTrait for usize {
    open spec fn truthy_spec(&self) -> bool {
        *self != 0
    }

    open spec fn rendered(&self) -> Seq<u8> {
        dec_digits(*self as nat)
    }

    open spec fn hint_spec(&self) -> usize {
        5
    }

    open spec fn pointer_spec(&self, key: Seq<char>) -> Option<usize> {
        self_pointer(*self, key)
    }

    open spec fn type_spec(&self) -> ContextType {
        ContextType::Number
    }

    open spec fn len_spec(&self) -> nat {
        1
    }

    fn is_truthy(&self) -> (r: bool) {
        *self != 0
    }

    fn render_capacity_hint(&self) -> (n: usize) {
        5
    }

    fn render(&self, out: &mut Vec<u8>) {
        push_dec_u64(*self as u64, out);
    }

    fn pointer<'a>(&'a self, key: &str) -> (r: Option<&'a usize>) {
        if key.is_empty() || str_eq_str(key, ".") {
            Some(self)
        } else {
            None
        }
    }

    fn get_type(&self) -> (t: ContextType) {
        ContextType::Number
    }

    fn len(&self) -> (n: usize) {
        1
    }
}

impl ContextTrait for i8 {
    open spec fn truthy_spec(&self) -> bool {
        *self != 0
    }

    open spec fn rendered(&self) -> Seq<u8> {
        dec_text(*self as int)
    }

    open spec fn hint_spec(&self) -> usize {
        5
    }

    open spec fn pointer_spec(&self, key: Seq<char>) -> Option<i8> {
        self_pointer(*self, key)
    }

    open spec fn type_spec(&self) -> ContextType {
        ContextType::Number
    }

    open spec fn len_spec(&self) -> nat {
        1
    }

    fn is_truthy(&self) -> (r: bool) {
        *self != 0
    }

    fn render_capacity_hint(&self) -> (n: usize) {
        5
    }

    fn render(&self, out: &mut Vec<u8>) {
        push_dec_i64(*self as i64, out);
    }

    fn pointer<'a>(&'a self, key: &str) -> (r: Option<&'a i8>) {
        if key.is_empty() || str_eq_str(key, ".") {
            Some(self)
        } else {
            None
        }
    }

    fn get_type(&self) -> (t: ContextType) {
        ContextType::Number
    }

    fn len(&self) -> (n: usize) {
        1
    }
}

impl ContextTrait for i16 {
    open spec fn truthy_spec(&self) -> bool {
        *self != 0
    }

    open spec fn rendered(&self) -> Seq<u8> {
        dec_text(*self as int)
    }

    open spec fn hint_spec(&self) -> usize {
        5
    }

    open spec fn pointer_spec(&self, key: Seq<char>) -> Option<i16> {
        self_pointer(*self, key)
    }

    open spec fn type_spec(&self) -> ContextType {
        ContextType::Number
    }

    open spec fn len_spec(&self) -> nat {
        1
    }

    fn is_truthy(&self) -> (r: bool) {
        *self != 0
    }

    fn render_capacity_hint(&self) -> (n: usize) {
        5
    }

    fn render(&self, out: &mut Vec<u8>) {
        push_dec_i64(*self as i64, out);
    }

    fn pointer<'a>(&'a self, key: &str) -> (r: Option<&'a i16>) {
        if key.is_empty() || str_eq_str(key, ".") {
            Some(self)
        } else {
            None
        }
    }

    fn get_type(&self) -> (t: ContextType) {
        ContextType::Number
    }

    fn len(&self) -> (n: usize) {
        1
    }
}

impl ContextTrait for i32 {
    open spec fn truthy_spec(&self) -> bool {
        *self != 0
    }

    open spec fn rendered(&self) -> Seq<u8> {
        dec_text(*self as int)
    }

    open spec fn hint_spec(&self) -> usize {
        5
    }

    open spec fn pointer_spec(&self, key: Seq<char>) -> Option<i32> {
        self_pointer(*self, key)
    }

    open spec fn type_spec(&self) -> ContextType {
        ContextType::Number
    }

    open spec fn len_spec(&self) -> nat {
        1
    }

    fn is_truthy(&self) -> (r: bool) {
        *self != 0
    }

    fn render_capacity_hint(&self) -> (n: usize) {
        5
    }

    fn render(&self, out: &mut Vec<u8>) {
        push_dec_i64(*self as i64, out);
    }

    fn pointer<'a>(&'a self, key: &str) -> (r: Option<&'a i32>) {
        if key.is_empty() || str_eq_str(key, ".") {
            Some(self)
        } else {
            None
        }
    }

    fn get_type(&self) -> (t: ContextType) {
        ContextType::Number
    }

    fn len(&self) -> (n: usize) {
        1
    }
}

impl ContextTrait for isize {
    open spec fn truthy_spec(&self) -> bool {
        *self != 0
    }

    open spec fn rendered(&self) -> Seq<u8> {
        dec_text(*self as int)
    }

    open spec fn hint_spec(&self) -> usize {
        5
    }

    open spec fn pointer_spec(&self, key: Seq<char>) -> Option<isize> {
        self_pointer(*self, key)
    }

    open spec fn type_spec(&self) -> ContextType {
        ContextType::Number
    }

    open spec fn len_spec(&self) -> nat {
        1
    }

    fn is_truthy(&self) -> (r: bool) {
        *self != 0
    }

    fn render_capacity_hint(&self) -> (n: usize) {
        5
    }

    fn render(&self, out: &mut Vec<u8>) {
        push_dec_i64(*self as i64, out);
    }

    fn pointer<'a>(&'a self, key: &str) -> (r: Option<&'a isize>) {
        if key.is_empty() || str_eq_str(key, ".") {
            Some(self)
        } else {
            None
        }
    }

    fn get_type(&self) -> (t: ContextType) {
        ContextType::Number
    }

    fn len(&self) -> (n: usize) {
        1
    }
}

impl ContextTrait for bool {
    open spec fn truthy_spec(&self) -> bool {
        *self
    }

    open spec fn rendered(&self) -> Seq<u8> {
        bool_text(*self)
    }

    open spec fn hint_spec(&self) -> usize {
        5
    }

    open spec fn pointer_spec(&self, key: Seq<char>) -> Option<bool> {
        self_pointer(*self, key)
    }

    open spec fn type_spec(&self) -> ContextType {
        ContextType::Bool
    }

    open spec fn len_spec(&self) -> nat {
        1
    }

    fn is_truthy(&self) -> (r: bool) {
        *self
    }

    fn render_capacity_hint(&self) -> (n: usize) {
        5
    }

    fn render(&self, out: &mut Vec<u8>) {
        push_bool(*self, out);
    }

    fn pointer<'a>(&'a self, key: &str) -> (r: Option<&'a bool>) {
        if key.is_empty() || str_eq_str(key, ".") {
            Some(self)
        } else {
            None
        }
    }

    fn get_type(&self) -> (t: ContextType) {
        ContextType::Bool
    }

    fn len(&self) -> (n: usize) {
        1
    }
}

impl ContextTrait for () {
    open spec fn truthy_spec(&self) -> bool {
        false
    }

    open spec fn rendered(&self) -> Seq<u8> {
        Seq::empty()
    }

    open spec fn hint_spec(&self) -> usize {
        0
    }

    open spec fn pointer_spec(&self, key: Seq<char>) -> Option<()> {
        self_pointer(*self, key)
    }

    open spec fn type_spec(&self) -> ContextType {
        ContextType::Null
    }

    open spec fn len_spec(&self) -> nat {
        0
    }

    fn is_truthy(&self) -> (r: bool) {
        false
    }

    fn render_capacity_hint(&self) -> (n: usize) {
        0
    }

    fn render(&self, out: &mut Vec<u8>) {
        proof {
            assert(out@ =~= out@ + Seq::<u8>::empty());
        }
    }

    fn pointer<'a>(&'a self, key: &str) -> (r: Option<&'a ()>) {
        if key.is_empty() || str_eq_str(key, ".") {
            Some(self)
        } else {
            None
        }
    }

    fn get_type(&self) -> (t: ContextType) {
        ContextType::Null
    }

    fn len(&self) -> (n: usize) {
        0
    }
}

impl ContextTrait for String {
    open spec fn truthy_spec(&self) -> bool {
        self@.len() > 0
    }

    open spec fn rendered(&self) -> Seq<u8> {
        vstd::utf8::encode_utf8(self@)
    }

    open spec fn hint_spec(&self) -> usize {
        vstd::utf8::encode_utf8(self@).len() as usize
    }

    open spec fn pointer_spec(&self, key: Seq<char>) -> Option<String> {
        self_pointer(*self, key)
    }

    open spec fn type_spec(&self) -> ContextType {
        ContextType::String
    }

    open spec fn len_spec(&self) -> nat {
        vstd::utf8::encode_utf8(self@).len()
    }

    fn is_truthy(&self) -> (r: bool) {
        !self.as_str().is_empty()
    }

    fn render_capacity_hint(&self) -> (n: usize) {
        self.as_str().as_bytes_vec().len()
    }

    fn render(&self, out: &mut Vec<u8>) {
        let mut bytes = self.as_str().as_bytes_vec();
        out.append(&mut bytes);
    }

    fn pointer<'a>(&'a self, key: &str) -> (r: Option<&'a String>) {
        if key.is_empty() || str_eq_str(key, ".") {
            Some(self)
        } else {
            None
        }
    }

    fn get_type(&self) -> (t: ContextType) {
        ContextType::String
    }

    fn len(&self) -> (n: usize) {
        self.as_str().as_bytes_vec().len()
    }
}

impl<'x> ContextTrait for &'x str {
    open spec fn truthy_spec(&self) -> bool {
        self@.len() > 0
    }

    open spec fn rendered(&self) -> Seq<u8> {
        vstd::utf8::encode_utf8(self@)
    }

    open spec fn hint_spec(&self) -> usize {
        vstd::utf8::encode_utf8(self@).len() as usize
    }

    open spec fn pointer_spec(&self, key: Seq<char>) -> Option<&'x str> {
        self_pointer(*self, key)
    }

    open spec fn type_spec(&self) -> ContextType {
        ContextType::String
    }

    open spec fn len_spec(&self) -> nat {
        vstd::utf8::encode_utf8(self@).len()
    }

    fn is_truthy(&self) -> (r: bool) {
        !self.is_empty()
    }

    fn render_capacity_hint(&self) -> (n: usize) {
        self.as_bytes_vec().len()
    }

    fn render(&self, out: &mut Vec<u8>) {
        let mut bytes = self.as_bytes_vec();
        out.append(&mut bytes);
    }

    fn pointer<'a>(&'a self, key: &str) -> (r: Option<&'a &'x str>) {
        if key.is_empty() || str_eq_str(key, ".") {
            Some(self)
        } else {
            None
        }
    }

    fn get_type(&self) -> (t: ContextType) {
        ContextType::String
    }

    fn len(&self) -> (n: usize) {
        self.as_bytes_vec().len()
    }
}

impl<T: ContextTrait> ContextTrait for Option<T> {
    open spec fn truthy_spec(&self) -> bool {
        self is Some
    }

    open spec fn rendered(&self) -> Seq<u8> {
        match self {
            Some(inner) => inner.rendered(),
            None => Seq::empty(),
        }
    }

    open spec fn hint_spec(&self) -> usize {
        match self {
            Some(inner) => inner.hint_spec(),
            None => 0,
        }
    }

    open spec fn pointer_spec(&self, key: Seq<char>) -> Option<Option<T>> {
        self_pointer(*self, key)
    }

    open spec fn type_spec(&self) -> ContextType {
        match self {
            Some(inner) => inner.type_spec(),
            None => ContextType::Null,
        }
    }

    open spec fn len_spec(&self) -> nat {
        match self {
            Some(inner) => inner.len_spec(),
            None => 0,
        }
    }

    fn is_truthy(&self) -> (r: bool) {
        self.is_some()
    }

    fn render_capacity_hint(&self) -> (n: usize) {
        match self {
            Some(inner) => inner.render_capacity_hint(),
            None => 0,
        }
    }

    fn render(&self, out: &mut Vec<u8>) {
        match self {
            Some(inner) => inner.render(out),
            None => {
                proof {
                    assert(out@ =~= out@ + Seq::<u8>::empty());
                }
            },
        }
    }

    fn pointer<'a>(&'a self, key: &str) -> (r: Option<&'a Option<T>>) {
        if key.is_empty() || str_eq_str(key, ".") {
            Some(self)
        } else {
            None
        }
    }

    fn get_type(&self) -> (t: ContextType) {
        match self {
            Some(inner) => inner.get_type(),
            None => ContextType::Null,
        }
    }

    fn len(&self) -> (n: usize) {
        match self {
            Some(inner) => inner.len(),
            None => 0,
        }
    }
}

impl<T: ContextTrait, E> ContextTrait for Result<T, E> {
    open spec fn truthy_spec(&self) -> bool {
        self is Ok
    }

    open spec fn rendered(&self) -> Seq<u8> {
        match self {
            Ok(inner) => inner.rendered(),
            Err(_) => Seq::empty(),
        }
    }

    open spec fn hint_spec(&self) -> usize {
        match self {
            Ok(inner) => inner.hint_spec(),
            Err(_) => 0,
        }
    }

    open spec fn pointer_spec(&self, key: Seq<char>) -> Option<Result<T, E>> {
        self_pointer(*self, key)
    }

    open spec fn type_spec(&self) -> ContextType {
        match self {
            Ok(inner) => inner.type_spec(),
            Err(_) => ContextType::Null,
        }
    }

    open spec fn len_spec(&self) -> nat {
        match self {
            Ok(inner) => inner.len_spec(),
            Err(_) => 0,
        }
    }

    fn is_truthy(&self) -> (r: bool) {
        self.is_ok()
    }

    fn render_capacity_hint(&self) -> (n: usize) {
        match self {
            Ok(inner) => inner.render_capacity_hint(),
            Err(_) => 0,
        }
    }

    fn render(&self, out: &mut Vec<u8>) {
        match self {
            Ok(inner) => inner.render(out),
            Err(_) => {
                proof {
                    assert(out@ =~= out@ + Seq::<u8>::empty());
                }
            },
        }
    }

    fn pointer<'a>(&'a self, key: &str) -> (r: Option<&'a Result<T, E>>) {
        if key.is_empty() || str_eq_str(key, ".") {
            Some(self)
        } else {
            None
        }
    }

    fn get_type(&self) -> (t: ContextType) {
        match self {
            Ok(inner) => inner.get_type(),
            Err(_) => ContextType::Null,
        }
    }

    fn len(&self) -> (n: usize) {
        match self {
            Ok(inner) => inner.len(),
            Err(_) => 0,
        }
    }
}

impl<T: ContextTrait> ContextTrait for Vec<T> {
    open spec fn truthy_spec(&self) -> bool {
        self@.len() > 0
    }

    open spec fn rendered(&self) -> Seq<u8> {
        Seq::empty()
    }

    open spec fn hint_spec(&self) -> usize {
        sum_hints(self@)
    }

    open spec fn pointer_spec(&self, key: Seq<char>) -> Option<Vec<T>> {
        self_pointer(*self, key)
    }

    open spec fn type_spec(&self) -> ContextType {
        ContextType::Array
    }

    open spec fn len_spec(&self) -> nat {
        self@.len()
    }

    fn is_truthy(&self) -> (r: bool) {
        self.len() > 0
    }

    fn render_capacity_hint(&self) -> (n: usize) {
        let mut acc: usize = 0;
        let mut i: usize = 0;
        proof {
            assert(self@.take(0) =~= Seq::<T>::empty());
        }
        while i < self.len()
            invariant
                i <= self@.len(),
                acc == sum_hints(self@.take(i as int)),
            decreases self@.len() - i,
        {
            let h = self[i].render_capacity_hint();
            acc = acc.saturating_add(h);
            proof {
                assert(self@.take(i + 1).drop_last() =~= self@.take(i as int));
                assert(self@.take(i + 1).last() == self@[i as int]);
            }
            i = i + 1;
        }
        proof {
            assert(self@.take(self@.len() as int) =~= self@);
        }
        acc
    }

    fn render(&self, out: &mut Vec<u8>) {
        proof {
            assert(out@ =~= out@ + Seq::<u8>::empty());
        }
    }

    fn pointer<'a>(&'a self, key: &str) -> (r: Option<&'a Vec<T>>) {
        if key.is_empty() || str_eq_str(key, ".") {
            Some(self)
        } else {
            None
        }
    }

    fn get_type(&self) -> (t: ContextType) {
        ContextType::Array
    }

    fn len(&self) -> (n: usize) {
        self.len()
    }
}

impl<V: ContextTrait> ContextTrait for (String, V) {
    open spec fn truthy_spec(&self) -> bool {
        self.1.truthy_spec()
    }

    open spec fn rendered(&self) -> Seq<u8> {
        Seq::empty()
    }

    open spec fn hint_spec(&self) -> usize {
        self.1.hint_spec()
    }

    open spec fn pointer_spec(&self, key: Seq<char>) -> Option<(String, V)> {
        self_pointer(*self, key)
    }

    open spec fn type_spec(&self) -> ContextType {
        self.1.type_spec()
    }

    open spec fn len_spec(&self) -> nat {
        1
    }

    fn is_truthy(&self) -> (r: bool) {
        self.1.is_truthy()
    }

    fn render_capacity_hint(&self) -> (n: usize) {
        self.1.render_capacity_hint()
    }

    fn render(&self, out: &mut Vec<u8>) {
        proof {
            assert(out@ =~= out@ + Seq::<u8>::empty());
        }
    }

    fn pointer<'a>(&'a self, key: &str) -> (r: Option<&'a (String, V)>) {
        if key.is_empty() || str_eq_str(key, ".") {
            Some(self)
        } else {
            None
        }
    }

    fn get_type(&self) -> (t: ContextType) {
        self.1.get_type()
    }

    fn len(&self) -> (n: usize) {
        1
    }
}

impl<T: ContextTrait> ContextTrait for Box<T> {
    open spec fn truthy_spec(&self) -> bool {
        (**self).truthy_spec()
    }

    open spec fn rendered(&self) -> Seq<u8> {
        (**self).rendered()
    }

    open spec fn hint_spec(&self) -> usize {
        (**self).hint_spec()
    }

    open spec fn pointer_spec(&self, key: Seq<char>) -> Option<Box<T>> {
        self_pointer(*self, key)
    }

    open spec fn type_spec(&self) -> ContextType {
        (**self).type_spec()
    }

    open spec fn len_spec(&self) -> nat {
        (**self).len_spec()
    }

    fn is_truthy(&self) -> (r: bool) {
        (**self).is_truthy()
    }

    fn render_capacity_hint(&self) -> (n: usize) {
        (**self).render_capacity_hint()
    }

    fn render(&self, out: &mut Vec<u8>) {
        (**self).render(out)
    }

    fn pointer<'a>(&'a self, key: &str) -> (r: Option<&'a Box<T>>) {
        if key.is_empty() || str_eq_str(key, ".") {
            Some(self)
        } else {
            None
        }
    }

    fn get_type(&self) -> (t: ContextType) {
        (**self).get_type()
    }

    fn len(&self) -> (n: usize) {
        (**self).len()
    }
}

impl<T: ContextTrait> ContextTrait for std::rc::Rc<T> {
    open spec fn truthy_spec(&self) -> bool {
        (**self).truthy_spec()
    }

    open spec fn rendered(&self) -> Seq<u8> {
        (**self).rendered()
    }

    open spec fn hint_spec(&self) -> usize {
        (**self).hint_spec()
    }

    open spec fn pointer_spec(&self, key: Seq<char>) -> Option<std::rc::Rc<T>> {
        self_pointer(*self, key)
    }

    open spec fn type_spec(&self) -> ContextType {
        (**self).type_spec()
    }

    open spec fn len_spec(&self) -> nat {
        (**self).len_spec()
    }

    fn is_truthy(&self) -> (r: bool) {
        (**self).is_truthy()
    }

    fn render_capacity_hint(&self) -> (n: usize) {
        (**self).render_capacity_hint()
    }

    fn render(&self, out: &mut Vec<u8>) {
        (**self).render(out)
    }

    fn pointer<'a>(&'a self, key: &str) -> (r: Option<&'a std::rc::Rc<T>>) {
        if key.is_empty() || str_eq_str(key, ".") {
            Some(self)
        } else {
            None
        }
    }

    fn get_type(&self) -> (t: ContextType) {
        (**self).get_type()
    }

    fn len(&self) -> (n: usize) {
        (**self).len()
    }
}

impl<T: ContextTrait> ContextTrait for std::sync::Arc<T> {
    open spec fn truthy_spec(&self) -> bool {
        (**self).truthy_spec()
    }

    open spec fn rendered(&self) -> Seq<u8> {
        (**self).rendered()
    }

    open spec fn hint_spec(&self) -> usize {
        (**self).hint_spec()
    }

    open spec fn pointer_spec(&self, key: Seq<char>) -> Option<std::sync::Arc<T>> {
        self_pointer(*self, key)
    }

    open spec fn type_spec(&self) -> ContextType {
        (**self).type_spec()
    }

    open spec fn len_spec(&self) -> nat {
        (**self).len_spec()
    }

    fn is_truthy(&self) -> (r: bool) {
        (**self).is_truthy()
    }

    fn render_capacity_hint(&self) -> (n: usize) {
        (**self).render_capacity_hint()
    }

    fn render(&self, out: &mut Vec<u8>) {
        (**self).render(out)
    }

    fn pointer<'a>(&'a self, key: &str) -> (r: Option<&'a std::sync::Arc<T>>) {
        if key.is_empty() || str_eq_str(key, ".") {
            Some(self)
        } else {
            None
        }
    }

    fn get_type(&self) -> (t: ContextType) {
        (**self).get_type()
    }

    fn len(&self) -> (n: usize) {
        (**self).len()
    }
}

impl<'x, T: ContextTrait> ContextTrait for &'x T {
    open spec fn truthy_spec(&self) -> bool {
        (**self).truthy_spec()
    }

    open spec fn rendered(&self) -> Seq<u8> {
        (**self).rendered()
    }

    open spec fn hint_spec(&self) -> usize {
        (**self).hint_spec()
    }

    open spec fn pointer_spec(&self, key: Seq<char>) -> Option<&'x T> {
        self_pointer(*self, key)
    }

    open spec fn type_spec(&self) -> ContextType {
        (**self).type_spec()
    }

    open spec fn len_spec(&self) -> nat {
        (**self).len_spec()
    }

    fn is_truthy(&self) -> (r: bool) {
        (**self).is_truthy()
    }

    fn render_capacity_hint(&self) -> (n: usize) {
        (**self).render_capacity_hint()
    }

    fn render(&self, out: &mut Vec<u8>) {
        (**self).render(out)
    }

    fn pointer<'a>(&'a self, key: &str) -> (r: Option<&'a &'x T>) {
        if key.is_empty() || str_eq_str(key, ".") {
            Some(self)
        } else {
            None
        }
    }

    fn get_type(&self) -> (t: ContextType) {
        (**self).get_type()
    }

    fn len(&self) -> (n: usize) {
        (**self).len()
    }
}

/// The (name, view) pairs a loop construct walks for a sequence: decimal
/// index names, items in order.
#[verifier::loop_isolation(false)]
pub fn seq_context_iter<'a, T: ContextTrait>(items: &'a Vec<T>) -> (ps: Vec<(String, &'a T)>)
    ensures
        ps@.len() == items@.len(),
        forall|i: int|
            0 <= i < ps@.len() ==> (#[trigger] ps@[i]).0@ == dec_chars(i as nat) && *ps@[i].1
                == items@[i],
{
    let mut ps: Vec<(String, &'a T)> = Vec::new();
    let mut i: usize = 0;
    while i < items.len()
        invariant
            i <= items@.len(),
            ps@.len() == i,
            forall|j: int|
                0 <= j < i ==> (#[trigger] ps@[j]).0@ == dec_chars(j as nat) && *ps@[j].1
                    == items@[j],
        decreases items@.len() - i,
    {
        let name = dec_str_u64(i as u64);
        ps.push((name, &items[i]));
        i = i + 1;
    }
    ps
}

/// A falsy optional wrapper is an absent value, and an absent value renders
/// nothing.
pub proof fn lemma_absent_option_renders_empty<T: ContextTrait>(v: Option<T>)
    ensures
        !v.truthy_spec() ==> v.rendered() == Seq::<u8>::empty(),
{
}

/// A falsy fallible wrapper is a failed value, and a failed value renders
/// nothing; the failure payload itself is never rendered.
pub proof fn lemma_failed_result_renders_empty<T: ContextTrait, E>(v: Result<T, E>)
    ensures
        !v.truthy_spec() ==> v.rendered() == Seq::<u8>::empty(),
{
}

} // verus!
