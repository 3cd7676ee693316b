use tera_context::adapters::seq_context_iter;
use tera_context::value::{entries_insert, CtxValue, Number};
use tera_context::ContextTrait;
use tera_context::ContextType;

fn rendered_of<T: ContextTrait>(v: &T) -> Vec<u8> {
    let mut out: Vec<u8> = Vec::new();
    v.render(&mut out);
    out
}

#[test]
fn absent_option_is_falsy_and_renders_nothing() {
    let v: Option<u64> = None;
    assert!(!v.is_truthy());
    assert_eq!(rendered_of(&v).len(), 0);
    assert!(matches!(v.get_type(), ContextType::Null));
    assert_eq!(v.len(), 0);
}

#[test]
fn present_option_forwards_to_inner() {
    let v: Option<u64> = Some(7);
    assert!(v.is_truthy());
    assert_eq!(rendered_of(&v), b"7");
    assert!(matches!(v.get_type(), ContextType::Number));
    assert_eq!(v.len(), 1);
}

#[test]
fn failed_result_is_falsy_and_renders_nothing() {
    let v: Result<String, u64> = Err(3);
    assert!(!v.is_truthy());
    assert_eq!(rendered_of(&v).len(), 0);
    assert!(matches!(v.get_type(), ContextType::Null));
    assert_eq!(v.len(), 0);
}

#[test]
fn ok_result_forwards_to_inner() {
    let v: Result<String, u64> = Ok(String::from("hello"));
    assert!(v.is_truthy());
    assert_eq!(rendered_of(&v), b"hello");
    assert!(matches!(v.get_type(), ContextType::String));
}

#[test]
fn numbers_render_canonical_decimal() {
    assert_eq!(rendered_of(&0u64), b"0");
    assert_eq!(rendered_of(&0i64), b"0");
    assert_eq!(rendered_of(&(-5i64)), b"-5");
    assert_eq!(rendered_of(&12345u64), b"12345");
    assert_eq!(rendered_of(&i64::MIN).as_slice(), b"-9223372036854775808");
    assert_eq!(rendered_of(&u64::MAX).as_slice(), b"18446744073709551615");
}

#[test]
fn wide_integers_render_canonical_decimal() {
    assert_eq!(rendered_of(&0u128), b"0");
    assert_eq!(rendered_of(&u128::MAX).as_slice(), b"340282366920938463463374607431768211455");
    assert_eq!(
        rendered_of(&i128::MIN).as_slice(),
        b"-170141183460469231731687303715884105728"
    );
    assert_eq!(rendered_of(&(-5i128)), b"-5");
}

#[test]
fn real_number_renders_its_fixed_text() {
    let v = Number::Real { text: String::from("3.5"), truthy: true };
    assert_eq!(rendered_of(&v), b"3.5");
    assert!(v.is_truthy());
    assert!(matches!(v.get_type(), ContextType::Number));
}

#[test]
fn numeric_truthiness_is_nonzero() {
    assert!(!0u64.is_truthy());
    assert!(7u64.is_truthy());
    assert!(!0i64.is_truthy());
    assert!((-1i64).is_truthy());
    assert!(!Number::Int(0).is_truthy());
    assert!(Number::UInt(2).is_truthy());
}

#[test]
fn bool_mirrors_its_value() {
    assert!(true.is_truthy());
    assert!(!false.is_truthy());
    assert_eq!(rendered_of(&true), b"true");
    assert_eq!(rendered_of(&false), b"false");
    assert!(matches!(true.get_type(), ContextType::Bool));
    assert_eq!(true.len(), 1);
}

#[test]
fn strings_truthy_iff_nonempty() {
    assert!(!String::new().is_truthy());
    assert!(String::from("a").is_truthy());
    assert_eq!(rendered_of(&String::from("abc")), b"abc");
    assert_eq!(String::from("abc").len(), 3);
    assert_eq!(String::from("abc").render_capacity_hint(), 3);
}

#[test]
fn string_length_and_hint_count_bytes() {
    let s = String::from("héllo");
    assert_eq!(s.len(), 6);
    assert_eq!(s.render_capacity_hint(), 6);
    assert_eq!(rendered_of(&s).len(), 6);
    let t: &str = "é";
    assert_eq!(ContextTrait::len(&t), 2);
    assert_eq!(t.render_capacity_hint(), 2);
    let v = CtxValue::Str(String::from("héllo"));
    assert_eq!(v.len(), 6);
    assert_eq!(v.render_capacity_hint(), 6);
    assert_eq!(rendered_of(&v), "héllo".as_bytes());
}

#[test]
fn unit_is_always_falsy() {
    assert!(!().is_truthy());
    assert_eq!(rendered_of(&()).len(), 0);
    assert!(matches!(().get_type(), ContextType::Null));
}

#[test]
fn pointer_dot_and_empty_name_the_receiver() {
    let n = 41u64;
    assert_eq!(*n.pointer(".").unwrap(), 41);
    assert_eq!(*n.pointer("").unwrap(), 41);
    assert!(n.pointer("x").is_none());
    let s = String::from("hi");
    assert_eq!(rendered_of(s.pointer(".").unwrap()), b"hi");
    assert_eq!(rendered_of(s.pointer("").unwrap()), b"hi");
    let v: Vec<u64> = vec![1, 2];
    assert_eq!(v.pointer(".").unwrap().len(), 2);
    let o = CtxValue::Null;
    assert!(matches!(o.pointer(".").unwrap().get_type(), ContextType::Null));
    assert!(matches!(o.pointer("").unwrap().get_type(), ContextType::Null));
}

#[test]
fn sequences_iterate_with_decimal_index_names() {
    let v: Vec<u64> = vec![10, 20, 30];
    let ps = seq_context_iter(&v);
    assert_eq!(ps.len(), v.len());
    assert_eq!(ps[0].0, "0");
    assert_eq!(ps[1].0, "1");
    assert_eq!(ps[2].0, "2");
    assert_eq!(*ps[1].1, 20);
    assert!(matches!(v.get_type(), ContextType::Array));
    assert!(v.is_truthy());
    assert!(!Vec::<u64>::new().is_truthy());
}

#[test]
fn sequence_hint_sums_children() {
    let v: Vec<u64> = vec![1, 2, 3];
    assert_eq!(v.render_capacity_hint(), 15);
    let w: Vec<String> = vec![String::from("ab"), String::from("cde")];
    assert_eq!(w.render_capacity_hint(), 5);
}

#[test]
fn pair_takes_its_value_shape() {
    let p = (String::from("k"), 0u64);
    assert!(!p.is_truthy());
    assert!(matches!(p.get_type(), ContextType::Number));
    assert_eq!(p.len(), 1);
}

#[test]
fn str_slice_behaves_like_string() {
    let s: &str = "xyz";
    assert!(s.is_truthy());
    assert!(!"".is_truthy());
    assert_eq!(rendered_of(&s), b"xyz");
    assert!(matches!(ContextTrait::get_type(&s), ContextType::String));
    assert_eq!(ContextTrait::len(&s), 3);
}

#[test]
fn small_integers_render_like_wide_ones() {
    assert_eq!(rendered_of(&7u8), b"7");
    assert_eq!(rendered_of(&200u16), b"200");
    assert_eq!(rendered_of(&(-3i8)), b"-3");
    assert_eq!(rendered_of(&(-40000i32)), b"-40000");
    assert_eq!(rendered_of(&123usize), b"123");
    assert!(!0u8.is_truthy());
    assert!(255u8.is_truthy());
    assert!((-1isize).is_truthy());
}

#[test]
fn shared_indirections_forward_every_call() {
    let r = std::rc::Rc::new(5u64);
    assert!(r.is_truthy());
    assert_eq!(rendered_of(&r), b"5");
    let a = std::sync::Arc::new(String::from("in"));
    assert_eq!(rendered_of(&a), b"in");
    assert!(matches!(a.get_type(), ContextType::String));
    let borrowed: &u64 = &17;
    assert_eq!(rendered_of(&borrowed), b"17");
    assert_eq!(ContextTrait::len(&borrowed), 1);
}

#[test]
fn indirection_forwards_every_call() {
    let b: Box<u64> = Box::new(9);
    assert!(b.is_truthy());
    assert_eq!(rendered_of(&b), b"9");
    assert!(matches!(b.get_type(), ContextType::Number));
    assert_eq!(b.len(), 1);
    assert_eq!(b.render_capacity_hint(), 9u64.render_capacity_hint());
}

fn sample_object() -> CtxValue {
    let mut entries: Vec<(String, CtxValue)> = Vec::new();
    entries_insert(&mut entries, String::from("zeta"), CtxValue::Num(Number::Int(1)));
    entries_insert(&mut entries, String::from("alpha"), CtxValue::Str(String::from("first")));
    entries_insert(&mut entries, String::from("mid"), CtxValue::Bool(true));
    CtxValue::Object(entries)
}

#[test]
fn map_iteration_matches_len() {
    let o = sample_object();
    let ps = o.context_iter().unwrap();
    assert_eq!(ps.len(), o.len());
    let a: Vec<u64> = vec![4, 5];
    let av = CtxValue::Array(vec![CtxValue::Num(Number::UInt(4)), CtxValue::Num(Number::UInt(5))]);
    assert_eq!(av.context_iter().unwrap().len(), av.len());
    assert_eq!(a.len(), 2);
}

#[test]
fn map_iteration_is_in_key_order() {
    let o = sample_object();
    let ps = o.context_iter().unwrap();
    let keys: Vec<&str> = ps.iter().map(|p| p.0.as_str()).collect();
    assert_eq!(keys, vec!["alpha", "mid", "zeta"]);
}

#[test]
fn map_pointer_does_direct_key_lookup() {
    let o = sample_object();
    let hit = o.pointer("alpha").unwrap();
    assert_eq!(rendered_of(hit), b"first");
    assert!(o.pointer("missing").is_none());
    assert!(matches!(o.pointer(".").unwrap().get_type(), ContextType::Object));
}

#[test]
fn map_insert_replaces_an_equal_key() {
    let mut entries: Vec<(String, CtxValue)> = Vec::new();
    entries_insert(&mut entries, String::from("k"), CtxValue::Num(Number::Int(1)));
    entries_insert(&mut entries, String::from("k"), CtxValue::Num(Number::Int(2)));
    let o = CtxValue::Object(entries);
    assert_eq!(o.len(), 1);
    assert_eq!(rendered_of(o.pointer("k").unwrap()), b"2");
}

#[test]
fn scalar_kinds_do_not_iterate() {
    assert!(CtxValue::Null.context_iter().is_none());
    assert!(CtxValue::Bool(true).context_iter().is_none());
    assert!(CtxValue::Str(String::from("s")).context_iter().is_none());
    assert!(CtxValue::Num(Number::Int(3)).context_iter().is_none());
}

#[test]
fn array_node_iterates_with_index_names() {
    let av = CtxValue::Array(vec![
        CtxValue::Str(String::from("x")),
        CtxValue::Str(String::from("y")),
    ]);
    let ps = av.context_iter().unwrap();
    assert_eq!(ps[0].0, "0");
    assert_eq!(ps[1].0, "1");
    assert_eq!(rendered_of(ps[1].1), b"y");
}

#[test]
fn value_truthiness_by_kind() {
    assert!(!CtxValue::Null.is_truthy());
    assert!(!CtxValue::Str(String::new()).is_truthy());
    assert!(CtxValue::Str(String::from("x")).is_truthy());
    assert!(!CtxValue::Array(Vec::new()).is_truthy());
    assert!(!CtxValue::Object(Vec::new()).is_truthy());
    assert!(sample_object().is_truthy());
    assert!(
        !CtxValue::Num(Number::Real { text: String::from("0"), truthy: false }).is_truthy()
    );
}

#[test]
fn object_and_null_render_nothing() {
    assert_eq!(rendered_of(&sample_object()).len(), 0);
    assert_eq!(rendered_of(&CtxValue::Null).len(), 0);
    let av = CtxValue::Array(vec![CtxValue::Num(Number::Int(1))]);
    assert_eq!(rendered_of(&av).len(), 0);
}
