use json_ld_model::object::LangString;
use json_ld_model::object::Literal;
use json_ld_model::object::Value;
use json_ld_model::rdf::RdfLiteral;
use json_ld_model::rdf::Vocabulary;
use json_ld_model::rdf::xsd_double_str;
use json_ld_model::rdf::xsd_integer_str;
use json_ld_model::syntax::JsonValue;
use json_ld_model::syntax::Number;

fn number_value(n: &str, ty: Option<&str>) -> Value {
    Value::Literal(
        Literal::Number(Number::new(String::from(n))),
        ty.map(String::from),
    )
}

#[test]
fn null_maps_to_the_null_string_literal() {
    let mut voc = Vocabulary::new();
    let t = Value::Literal(Literal::Null, None).interpretation(&mut voc);
    assert_eq!(t, RdfLiteral::String(String::from("null")));
    assert_eq!(voc.tags.len(), 0);
}

#[test]
fn booleans_map_to_boolean_literals() {
    let mut voc = Vocabulary::new();
    let t = Value::Literal(Literal::Boolean(true), None).interpretation(&mut voc);
    assert_eq!(t, RdfLiteral::Boolean(true));
}

#[test]
fn strings_map_to_plain_string_literals() {
    let mut voc = Vocabulary::new();
    let t = Value::Literal(Literal::String(String::from("hi")), None).interpretation(&mut voc);
    assert_eq!(t, RdfLiteral::String(String::from("hi")));
}

#[test]
fn integer_datatype_keeps_the_exact_integer() {
    let mut voc = Vocabulary::new();
    let t = number_value("42", Some(xsd_integer_str())).interpretation(&mut voc);
    assert_eq!(t, RdfLiteral::Integer(42));
}

#[test]
fn unknown_datatype_still_permits_an_integer() {
    let mut voc = Vocabulary::new();
    let t = number_value("-7", None).interpretation(&mut voc);
    assert_eq!(t, RdfLiteral::Integer(-7));
    let u = number_value("13", Some("http://example.org/other")).interpretation(&mut voc);
    assert_eq!(u, RdfLiteral::Integer(13));
}

#[test]
fn double_datatype_forces_a_double() {
    let mut voc = Vocabulary::new();
    let t = number_value("42", Some(xsd_double_str())).interpretation(&mut voc);
    assert_eq!(t, RdfLiteral::Double(42.0f64.to_bits()));
}

#[test]
fn out_of_range_numbers_fall_back_to_lossy_doubles() {
    let mut voc = Vocabulary::new();
    let t = number_value("18446744073709551616", None).interpretation(&mut voc);
    assert_eq!(t, RdfLiteral::Double(18446744073709551616.0f64.to_bits()));
}

#[test]
fn non_integral_numbers_map_to_doubles() {
    let mut voc = Vocabulary::new();
    let t = number_value("1.5", None).interpretation(&mut voc);
    assert_eq!(t, RdfLiteral::Double(1.5f64.to_bits()));
    let u = number_value("1.5", Some(xsd_integer_str())).interpretation(&mut voc);
    assert_eq!(u, RdfLiteral::Double(1.5f64.to_bits()));
}

#[test]
fn well_formed_language_tags_are_interned() {
    let mut voc = Vocabulary::new();
    let v = Value::LangString(LangString {
        text: String::from("Bonjour"),
        language: Some(String::from("fr")),
    });
    let t = v.interpretation(&mut voc);
    assert_eq!(t, RdfLiteral::LangString(String::from("Bonjour"), 0));
    assert_eq!(voc.tags, vec![String::from("fr")]);
}

#[test]
fn malformed_language_tags_degrade_to_plain_strings() {
    let mut voc = Vocabulary::new();
    let v = Value::LangString(LangString {
        text: String::from("Bonjour"),
        language: Some(String::from("???")),
    });
    let t = v.interpretation(&mut voc);
    assert_eq!(t, RdfLiteral::String(String::from("Bonjour")));
    assert_eq!(voc.tags.len(), 0);
}

#[test]
fn absent_language_tags_give_plain_strings() {
    let mut voc = Vocabulary::new();
    let v = Value::LangString(LangString { text: String::from("Hello"), language: None });
    let t = v.interpretation(&mut voc);
    assert_eq!(t, RdfLiteral::String(String::from("Hello")));
}

#[test]
fn the_vocabulary_interns_each_tag_once() {
    let mut voc = Vocabulary::new();
    let a = voc.insert_language_tag("fr");
    let b = voc.insert_language_tag("en");
    let c = voc.insert_language_tag("fr");
    assert_eq!(a, 0);
    assert_eq!(b, 1);
    assert_eq!(c, 0);
    assert_eq!(voc.tags, vec![String::from("fr"), String::from("en")]);
}

#[test]
fn embedded_json_maps_to_a_json_literal() {
    let mut voc = Vocabulary::new();
    let doc = JsonValue::Array(vec![JsonValue::Boolean(true), JsonValue::Null]);
    let v = Value::Json(JsonValue::Array(vec![JsonValue::Boolean(true), JsonValue::Null]));
    let t = v.interpretation(&mut voc);
    assert_eq!(t, RdfLiteral::Json(doc));
}
