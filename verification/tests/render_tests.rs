use json_ld_model::object::Indexed;
use json_ld_model::object::LangString;
use json_ld_model::object::Literal;
use json_ld_model::object::Node;
use json_ld_model::object::Object;
use json_ld_model::object::Reference;
use json_ld_model::object::Value;
use json_ld_model::object::object_set_as_json;
use json_ld_model::syntax::JsonValue;
use json_ld_model::syntax::Number;

fn entry(k: &str, v: JsonValue) -> (String, JsonValue) {
    (String::from(k), v)
}

fn value_42() -> Value {
    Value::Literal(Literal::Number(Number::new(String::from("42"))), None)
}

fn rendered_42() -> JsonValue {
    JsonValue::Object(vec![entry(
        "@value",
        JsonValue::Number(Number::new(String::from("42"))),
    )])
}

#[test]
fn values_render_under_the_value_keyword() {
    assert_eq!(value_42().as_json(), rendered_42());
    let typed = Value::Literal(
        Literal::Boolean(true),
        Some(String::from("http://example.org/t")),
    );
    assert_eq!(
        typed.as_json(),
        JsonValue::Object(vec![
            entry("@value", JsonValue::Boolean(true)),
            entry("@type", JsonValue::String(String::from("http://example.org/t"))),
        ])
    );
}

#[test]
fn language_strings_render_with_their_tag() {
    let v = Value::LangString(LangString {
        text: String::from("Bonjour"),
        language: Some(String::from("fr")),
    });
    assert_eq!(
        v.as_json(),
        JsonValue::Object(vec![
            entry("@value", JsonValue::String(String::from("Bonjour"))),
            entry("@language", JsonValue::String(String::from("fr"))),
        ])
    );
}

#[test]
fn embedded_json_renders_with_the_json_type() {
    let v = Value::Json(JsonValue::Null);
    assert_eq!(
        v.as_json(),
        JsonValue::Object(vec![
            entry("@value", JsonValue::Null),
            entry("@type", JsonValue::String(String::from("@json"))),
        ])
    );
}

#[test]
fn lists_render_under_the_list_keyword() {
    let list = Object::List(vec![Indexed::new(Object::Value(value_42()), None)]);
    assert_eq!(
        list.as_json(),
        JsonValue::Object(vec![entry(
            "@list",
            JsonValue::Array(vec![rendered_42()]),
        )])
    );
}

#[test]
fn the_index_tag_is_rendered_as_one_more_entry() {
    let wrapped = Indexed::new(Object::Value(value_42()), Some(String::from("k")));
    assert_eq!(
        wrapped.as_json(),
        JsonValue::Object(vec![
            entry("@value", JsonValue::Number(Number::new(String::from("42")))),
            entry("@index", JsonValue::String(String::from("k"))),
        ])
    );
}

#[test]
fn nodes_render_id_properties_and_graph() {
    let node = Node {
        id: Some(Reference::Iri(String::from("http://example.org/a"))),
        properties: vec![(
            Reference::Iri(String::from("http://example.org/p")),
            vec![Indexed::new(Object::Value(value_42()), None)],
        )],
        graph: Some(vec![Indexed::new(Object::Value(value_42()), None)]),
    };
    assert_eq!(
        Object::Node(node).as_json(),
        JsonValue::Object(vec![
            entry("@id", JsonValue::String(String::from("http://example.org/a"))),
            entry(
                "http://example.org/p",
                JsonValue::Array(vec![rendered_42()]),
            ),
            entry("@graph", JsonValue::Array(vec![rendered_42()])),
        ])
    );
}

#[test]
fn a_member_set_renders_as_the_array_of_its_members() {
    let set = vec![
        Indexed::new(Object::Value(value_42()), None),
        Indexed::new(Object::Value(value_42()), Some(String::from("k"))),
    ];
    assert_eq!(
        object_set_as_json(&set),
        JsonValue::Array(vec![
            rendered_42(),
            JsonValue::Object(vec![
                entry("@value", JsonValue::Number(Number::new(String::from("42")))),
                entry("@index", JsonValue::String(String::from("k"))),
            ]),
        ])
    );
}
