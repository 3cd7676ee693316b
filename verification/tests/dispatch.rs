use tera_context::dispatch::{BuildError, FieldSpec, Record};
use tera_context::value::{entries_insert, CtxValue, Number};
use tera_context::ContextTrait;
use tera_context::ContextType;

fn rendered_of<T: ContextTrait>(v: &T) -> Vec<u8> {
    let mut out: Vec<u8> = Vec::new();
    v.render(&mut out);
    out
}

fn two_plain_fields() -> Vec<FieldSpec> {
    vec![
        FieldSpec::plain(String::from("a"), CtxValue::Str(String::from("x"))),
        FieldSpec::plain(String::from("b"), CtxValue::Num(Number::Int(3))),
    ]
}

#[test]
fn plain_record_dispatches_by_name() {
    let rec = Record::build(two_plain_fields()).ok().unwrap();
    let hit_a = rec.lookup("a").unwrap();
    assert_eq!(rendered_of(hit_a.value), b"x");
    assert!(hit_a.callback.is_none());
    let hit_b = rec.lookup("b").unwrap();
    assert_eq!(rendered_of(hit_b.value), b"3");
    assert!(rec.lookup("c").is_none());
}

#[test]
fn renamed_field_moves_to_its_new_name() {
    let mut fields = two_plain_fields();
    fields[1].rename = Some(String::from("c"));
    let rec = Record::build(fields).ok().unwrap();
    assert!(rec.lookup("b").is_none());
    let hit = rec.lookup("c").unwrap();
    assert_eq!(rendered_of(hit.value), b"3");
    let hit_a = rec.lookup("a").unwrap();
    assert_eq!(rendered_of(hit_a.value), b"x");
}

#[test]
fn skipped_field_leaves_the_contract() {
    let mut fields = two_plain_fields();
    fields[0].skip = true;
    let rec = Record::build(fields).ok().unwrap();
    assert!(rec.lookup("a").is_none());
    assert!(rec.lookup("b").is_some());
    assert_eq!(rec.len(), 1);
}

#[test]
fn flattened_field_exposes_its_own_keys() {
    let mut inner: Vec<(String, CtxValue)> = Vec::new();
    entries_insert(&mut inner, String::from("z"), CtxValue::Str(String::from("deep")));
    let mut embedded = FieldSpec::plain(String::from("f"), CtxValue::Object(inner));
    embedded.skip = true;
    embedded.flatten = true;
    let fields = vec![
        FieldSpec::plain(String::from("a"), CtxValue::Str(String::from("x"))),
        embedded,
    ];
    let rec = Record::build(fields).ok().unwrap();
    let hit = rec.lookup("z").unwrap();
    assert_eq!(rendered_of(hit.value), b"deep");
    assert!(hit.callback.is_none());
    assert!(rec.lookup("w").is_none());
}

#[test]
fn colliding_fingerprints_are_rejected_at_build_time() {
    let fields = vec![
        FieldSpec::plain(String::from("same"), CtxValue::Num(Number::Int(1))),
        FieldSpec::plain(String::from("same"), CtxValue::Num(Number::Int(2))),
    ];
    match Record::build(fields) {
        Err(BuildError::HashCollision) => (),
        Ok(_) => panic!("a fingerprint collision must not build"),
    }
}

#[test]
fn rename_onto_an_existing_name_collides() {
    let mut fields = two_plain_fields();
    fields[1].rename = Some(String::from("a"));
    assert!(Record::build(fields).is_err());
}

#[test]
fn empty_record_is_a_valid_empty_context() {
    let rec = Record::build(Vec::new()).ok().unwrap();
    assert!(rec.lookup("a").is_none());
    assert_eq!(rec.len(), 0);
    assert_eq!(rec.context_iter().len(), 0);
    assert_eq!(rec.render_capacity_hint(), 0);
    assert!(rec.is_truthy());
    assert!(matches!(rec.get_type(), ContextType::Object));
}

#[test]
fn record_iterates_eligible_fields_in_declaration_order() {
    let mut fields = two_plain_fields();
    fields[1].rename = Some(String::from("c"));
    fields.push(FieldSpec::plain(String::from("d"), CtxValue::Bool(true)));
    fields[2].skip = true;
    let rec = Record::build(fields).ok().unwrap();
    let ps = rec.context_iter();
    assert_eq!(ps.len(), rec.len());
    assert_eq!(ps.len(), 2);
    assert_eq!(ps[0].0, "a");
    assert_eq!(ps[1].0, "c");
    assert_eq!(rendered_of(ps[1].1), b"3");
}

#[test]
fn record_hint_counts_flattened_but_not_skipped_fields() {
    let mut fields = vec![
        FieldSpec::plain(String::from("a"), CtxValue::Str(String::from("abcd"))),
        FieldSpec::plain(String::from("b"), CtxValue::Str(String::from("ef"))),
        FieldSpec::plain(String::from("f"), CtxValue::Str(String::from("ghi"))),
    ];
    fields[1].skip = true;
    fields[2].skip = true;
    fields[2].flatten = true;
    let rec = Record::build(fields).ok().unwrap();
    assert_eq!(rec.render_capacity_hint(), 7);
}

#[test]
fn callback_override_is_reported_on_a_hit() {
    let mut fields = two_plain_fields();
    fields[0].callback = Some(42);
    let rec = Record::build(fields).ok().unwrap();
    let hit = rec.lookup("a").unwrap();
    assert_eq!(hit.callback, Some(42));
    let hit_b = rec.lookup("b").unwrap();
    assert!(hit_b.callback.is_none());
}

#[test]
fn record_pointer_names_the_receiver() {
    let rec = Record::build(two_plain_fields()).ok().unwrap();
    assert!(rec.pointer(".").is_some());
    assert!(rec.pointer("").is_some());
    assert!(rec.pointer("a").is_none());
    assert_eq!(rendered_of(&rec).len(), 0);
}
