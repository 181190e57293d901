use std::collections::hash_map::DefaultHasher;
use std::hash::Hash;
use std::hash::Hasher;

use json_ld_model::object::Any;
use json_ld_model::object::Indexed;
use json_ld_model::object::LangString;
use json_ld_model::object::Literal;
use json_ld_model::object::Node;
use json_ld_model::object::Object;
use json_ld_model::object::Objects;
use json_ld_model::object::Reference;
use json_ld_model::object::Value;

fn string_value(s: &str) -> Object {
    Object::Value(Value::Literal(Literal::String(String::from(s)), None))
}

fn bare_node() -> Node {
    Node { id: None, properties: Vec::new(), graph: None }
}

fn hash_of<T: Hash>(t: &T) -> u64 {
    let mut h = DefaultHasher::new();
    t.hash(&mut h);
    h.finish()
}

#[test]
fn indexed_equality_considers_the_index() {
    let a = Indexed::new(string_value("v"), Some(String::from("i1")));
    let b = Indexed::new(string_value("v"), Some(String::from("i2")));
    let c = Indexed::new(string_value("v"), Some(String::from("i1")));
    assert_ne!(a, b);
    assert_eq!(a, c);
    let d = Indexed::new(string_value("v"), None);
    assert_ne!(a, d);
}

#[test]
fn indexed_hash_combines_value_and_index() {
    let a = Indexed::new(string_value("v"), Some(String::from("i1")));
    let b = Indexed::new(string_value("v"), Some(String::from("i2")));
    let c = Indexed::new(string_value("v"), Some(String::from("i1")));
    assert_eq!(hash_of(&a), hash_of(&c));
    assert_ne!(hash_of(&a), hash_of(&b));
}

#[test]
fn indexed_round_trip() {
    let a = Indexed::new(string_value("v"), Some(String::from("i")));
    let (value, index) = a.into_parts();
    assert_eq!(value, string_value("v"));
    assert_eq!(index, Some(String::from("i")));
}

#[test]
fn object_kinds_are_exclusive() {
    let v = string_value("v");
    let n = Object::Node(bare_node());
    let l = Object::List(Vec::new());
    for o in [&v, &n, &l] {
        let count = [o.is_value(), o.is_node(), o.is_list()]
            .iter()
            .filter(|b| **b)
            .count();
        assert_eq!(count, 1);
    }
    assert!(v.is_value() && !v.is_node() && !v.is_list());
    assert!(n.is_node());
    assert!(l.is_list());
}

#[test]
fn is_graph_only_for_graph_nodes() {
    let mut node = bare_node();
    assert!(!Object::Node(bare_node()).is_graph());
    node.graph = Some(Vec::new());
    assert!(Object::Node(node).is_graph());
    assert!(!string_value("v").is_graph());
    assert!(!Object::List(Vec::new()).is_graph());
}

#[test]
fn capability_view_derives_queries() {
    let node = Node {
        id: Some(Reference::Iri(String::from("http://example.org/a"))),
        properties: Vec::new(),
        graph: None,
    };
    let o = Object::Node(node);
    assert!(Any::is_node(&o));
    assert!(!Any::is_value(&o));
    assert!(!Any::is_list(&o));
    assert!(!Any::is_graph(&o));
    assert_eq!(
        Any::id(&o),
        Some(&Reference::Iri(String::from("http://example.org/a")))
    );
    let tagged = Object::Value(Value::LangString(LangString {
        text: String::from("Bonjour"),
        language: Some(String::from("fr")),
    }));
    assert_eq!(Any::language(&tagged), Some(&String::from("fr")));
    assert_eq!(Any::id(&tagged), None);
    assert_eq!(Any::language(&o), None);
}

#[test]
fn the_view_applies_to_wrapped_objects_too() {
    let wrapped = Indexed::new(Object::List(Vec::new()), Some(String::from("i")));
    assert!(Any::is_list(&wrapped));
    assert!(!Any::is_node(&wrapped));
    assert_eq!(Any::id(&wrapped), None);
}

#[test]
fn object_accessors_narrow_softly() {
    let s = string_value("hello");
    assert_eq!(s.as_str(), Some("hello"));
    assert_eq!(s.as_bool(), None);
    assert_eq!(s.language(), None);
    let b = Object::Value(Value::Literal(Literal::Boolean(true), None));
    assert_eq!(b.as_bool(), Some(true));
    assert_eq!(b.as_str(), None);
    let n = Object::Node(Node {
        id: Some(Reference::Blank(String::from("_:b0"))),
        properties: Vec::new(),
        graph: None,
    });
    assert_eq!(n.as_str(), Some("_:b0"));
    assert_eq!(n.as_iri(), None);
    let iri_node = Object::Node(Node {
        id: Some(Reference::Iri(String::from("http://example.org/a"))),
        properties: Vec::new(),
        graph: None,
    });
    assert_eq!(iri_node.as_iri(), Some(&String::from("http://example.org/a")));
}

#[test]
fn bare_graph_node_converts_to_its_member_set() {
    let member = Indexed::new(string_value("m"), None);
    let node = Node {
        id: None,
        properties: Vec::new(),
        graph: Some(vec![Indexed::new(string_value("m"), None)]),
    };
    let wrapped = Indexed::new(Object::Node(node), None);
    match wrapped.into_unnamed_graph() {
        Ok(g) => {
            assert_eq!(g.len(), 1);
            assert_eq!(g[0], member);
        },
        Err(_) => panic!("expected the bare graph to convert"),
    }
}

#[test]
fn identified_node_keeps_its_envelope() {
    let node = Node {
        id: Some(Reference::Iri(String::from("http://example.org/a"))),
        properties: Vec::new(),
        graph: Some(Vec::new()),
    };
    let wrapped = Indexed::new(Object::Node(node), Some(String::from("i")));
    let expected = Indexed::new(
        Object::Node(Node {
            id: Some(Reference::Iri(String::from("http://example.org/a"))),
            properties: Vec::new(),
            graph: Some(Vec::new()),
        }),
        Some(String::from("i")),
    );
    match wrapped.into_unnamed_graph() {
        Ok(_) => panic!("an identified node must not convert"),
        Err(e) => assert_eq!(e, expected),
    }
}

#[test]
fn non_node_object_does_not_convert() {
    let wrapped = Indexed::new(string_value("v"), None);
    match wrapped.into_unnamed_graph() {
        Ok(_) => panic!("a value object must not convert"),
        Err(e) => assert_eq!(e, Indexed::new(string_value("v"), None)),
    }
}

#[test]
fn objects_cursor_walks_left_to_right() {
    let items = vec![
        Indexed::new(string_value("a"), None),
        Indexed::new(string_value("b"), None),
    ];
    let mut it = Objects::new(Some(&items));
    assert_eq!(it.next(), Some(&items[0]));
    assert_eq!(it.next(), Some(&items[1]));
    assert_eq!(it.next(), None);
    let mut empty = Objects::new(None);
    assert_eq!(empty.next(), None);
}

#[test]
fn objects_from_values_and_nodes() {
    let v = Value::Literal(Literal::Null, None);
    let o: Object = Object::from(v);
    assert!(o.is_value());
    let n: Object = Object::from(bare_node());
    assert!(n.is_node());
}
