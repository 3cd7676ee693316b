use tera_context::OrderedMap;
use tera_context::ContextTrait;
use tera_context::ContextType;

fn rendered_of<T: ContextTrait>(v: &T) -> Vec<u8> {
    let mut out: Vec<u8> = Vec::new();
    v.render(&mut out);
    out
}

fn sample_map() -> OrderedMap<u64> {
    let mut m: OrderedMap<u64> = OrderedMap::new();
    m.insert(String::from("zeta"), 1);
    m.insert(String::from("alpha"), 2);
    m.insert(String::from("mid"), 3);
    m
}

#[test]
fn ordered_map_gets_by_key() {
    let m = sample_map();
    assert_eq!(*m.get("alpha").unwrap(), 2);
    assert_eq!(*m.get("zeta").unwrap(), 1);
    assert!(m.get("missing").is_none());
}

#[test]
fn ordered_map_insert_replaces_an_equal_key() {
    let mut m: OrderedMap<u64> = OrderedMap::new();
    m.insert(String::from("k"), 1);
    m.insert(String::from("k"), 2);
    assert_eq!(m.len(), 1);
    assert_eq!(*m.get("k").unwrap(), 2);
}

#[test]
fn ordered_map_iterates_in_key_order() {
    let m = sample_map();
    let ps = m.context_iter();
    assert_eq!(ps.len(), m.len());
    let keys: Vec<&str> = ps.iter().map(|p| p.0.as_str()).collect();
    assert_eq!(keys, vec!["alpha", "mid", "zeta"]);
    assert_eq!(*ps[0].1, 2);
}

#[test]
fn ordered_map_hint_sums_children() {
    let m = sample_map();
    assert_eq!(m.render_capacity_hint(), 15);
    let mut s: OrderedMap<String> = OrderedMap::new();
    s.insert(String::from("a"), String::from("ab"));
    s.insert(String::from("b"), String::from("cde"));
    assert_eq!(s.render_capacity_hint(), 5);
}

#[test]
fn ordered_map_is_an_object_kind() {
    let m = sample_map();
    assert!(m.is_truthy());
    assert!(!OrderedMap::<u64>::new().is_truthy());
    assert!(matches!(m.get_type(), ContextType::Object));
    assert_eq!(rendered_of(&m).len(), 0);
    assert!(m.pointer(".").is_some());
    assert!(m.pointer("").is_some());
}
