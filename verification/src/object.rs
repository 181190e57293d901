//! Nodes, lists and values.
//!
//! A JSON-LD document connects together multiple kinds of data objects:
//! an [`Object`] is a value object, a node object or a list of objects.
//! Any object may be wrapped in an [`Indexed`] envelope carrying an
//! optional index tag; equality of envelopes is index-aware. The [`Any`]
//! trait is the capability view: one required operation, [`Any::as_ref`],
//! from which every derived query is computed generically.

use vstd::prelude::*;
use crate::syntax::JsonValue;
use crate::syntax::Number;

verus! {

/// An entity identifier: either an absolute identifier (IRI) or a
/// document-scoped blank-node label. Immutable once created.
#[derive(Debug, PartialEq, Eq, Hash)]
pub enum Reference {
    /// An absolute IRI.
    Iri(String),
    /// A blank-node label.
    Blank(String),
}

impl Reference {
    /// The characters of the identifier, whichever kind it is.
    pub open spec fn spec_str(self) -> Seq<char> {
        match self {
            Reference::Iri(s) => s@,
            Reference::Blank(b) => b@,
        }
    }

    /// The identifier as a string.
    pub fn as_str(&self) -> (r: &str)
        ensures
            r@ == self.spec_str(),
    {
        match self {
            Reference::Iri(s) => s.as_str(),
            Reference::Blank(b) => b.as_str(),
        }
    }
}

/// Pairs an inner value with an optional index tag. Two indexed values
/// are equal exactly when both the inner values and the index tags are
/// equal; hashing combines both.
#[derive(Debug, PartialEq, Eq, Hash)]
pub struct Indexed<T> {
    /// The wrapped value.
    pub value: T,
    /// The optional index tag.
    pub index: Option<String>,
}

impl<T> Indexed<T> {
    /// Wraps `value` with the optional index tag `index`.
    pub fn new(value: T, index: Option<String>) -> (r: Indexed<T>)
        ensures
            r.value == value,
            r.index == index,
    {
        Indexed { value, index }
    }

    /// Decomposes the envelope back into value and index tag.
    pub fn into_parts(self) -> (r: (T, Option<String>))
        ensures
            r.0 == self.value,
            r.1 == self.index,
    {
        (self.value, self.index)
    }

    /// The wrapped value.
    pub fn inner(&self) -> (r: &T)
        ensures
            *r == self.value,
    {
        &self.value
    }

    /// The index tag, if any.
    pub fn index(&self) -> (r: Option<&String>)
        ensures
            r is Some <==> self.index is Some,
            r matches Some(s) ==> *s == self.index->0,
    {
        self.index.as_ref()
    }
}

/// Equality of indexed values considers both parts: two envelopes are
/// equal exactly when the inner values and the index tags are both equal.
pub proof fn lemma_indexed_equality<T>(a: Indexed<T>, b: Indexed<T>)
    ensures
        (a == b) <==> (a.value == b.value && a.index == b.index),
{
    if a.value == b.value && a.index == b.index {
        assert(a == Indexed { value: a.value, index: a.index });
        assert(b == Indexed { value: b.value, index: b.index });
    }
}

/// Plain scalar data with no language or embedded-structure semantics.
#[derive(Debug, PartialEq, Eq, Hash)]
pub enum Literal {
    /// The `null` value.
    Null,
    /// A boolean value.
    Boolean(bool),
    /// A number, kept in its lexical form.
    Number(Number),
    /// A string.
    String(String),
}

/// A string with an optional language tag. The tag is kept as written,
/// whether or not it is a well-formed language tag.
#[derive(Debug, PartialEq, Eq, Hash)]
pub struct LangString {
    /// The text of the string.
    pub text: String,
    /// The optional language tag, possibly malformed.
    pub language: Option<String>,
}

/// A JSON-LD value object: a single scalar datum. Never carries identity.
#[derive(Debug, PartialEq, Eq, Hash)]
pub enum Value {
    /// A literal with an optional datatype identifier.
    Literal(Literal, Option<String>),
    /// A language-tagged string.
    LangString(LangString),
    /// An embedded JSON document.
    Json(JsonValue),
}

impl Value {
    /// The string content of the value, when it has one.
    pub open spec fn spec_as_str(self) -> Option<Seq<char>> {
        match self {
            Value::Literal(Literal::String(s), _) => Some(s@),
            Value::LangString(ls) => Some(ls.text@),
            _ => None,
        }
    }

    /// The boolean content of the value, when it has one.
    pub open spec fn spec_as_bool(self) -> Option<bool> {
        match self {
            Value::Literal(Literal::Boolean(b), _) => Some(b),
            _ => None,
        }
    }

    /// The numeric content of the value, in lexical form, when it has one.
    pub open spec fn spec_as_number(self) -> Option<Seq<char>> {
        match self {
            Value::Literal(Literal::Number(n), _) => Some(n@),
            _ => None,
        }
    }

    /// The language tag of the value, when it is a language-tagged string
    /// that carries one.
    pub open spec fn spec_language(self) -> Option<Seq<char>> {
        match self {
            Value::LangString(ls) => match ls.language {
                Some(t) => Some(t@),
                None => None,
            },
            _ => None,
        }
    }

    /// Projects the value down to a string; absent when the variant does
    /// not match. A type test, never a failure.
    pub fn as_str(&self) -> (r: Option<&str>)
        ensures
            r is Some <==> self.spec_as_str() is Some,
            r matches Some(s) ==> s@ == self.spec_as_str()->0,
    {
        match self {
            Value::Literal(Literal::String(s), _) => Some(s.as_str()),
            Value::LangString(ls) => Some(ls.text.as_str()),
            _ => None,
        }
    }

    /// Projects the value down to a boolean, when it is one.
    pub fn as_bool(&self) -> (r: Option<bool>)
        ensures
            r == self.spec_as_bool(),
    {
        match self {
            Value::Literal(Literal::Boolean(b), _) => Some(*b),
            _ => None,
        }
    }

    /// Projects the value down to a number, when it is one.
    pub fn as_number(&self) -> (r: Option<&Number>)
        ensures
            r is Some <==> self.spec_as_number() is Some,
            r matches Some(n) ==> n@ == self.spec_as_number()->0,
    {
        match self {
            Value::Literal(Literal::Number(n), _) => Some(n),
            _ => None,
        }
    }

    /// The language tag, when the value is a language-tagged string that
    /// carries one.
    pub fn language(&self) -> (r: Option<&String>)
        ensures
            r is Some <==> self.spec_language() is Some,
            r matches Some(t) ==> t@ == self.spec_language()->0,
    {
        match self {
            Value::LangString(ls) => ls.language.as_ref(),
            _ => None,
        }
    }
}

/// A node object: an entity description. The parts this core depends on:
/// an optional identifier, a set of properties (predicate with its set of
/// objects), and optionally a set of objects under the graph key, making
/// the node a graph object.
#[derive(Debug, PartialEq, Eq, Hash)]
pub struct Node {
    /// The optional identifier of the node.
    pub id: Option<Reference>,
    /// The properties: each predicate with its objects.
    pub properties: Vec<(Reference, Vec<Indexed<Object>>)>,
    /// The members of the graph this node describes, when it is a graph
    /// object.
    pub graph: Option<Vec<Indexed<Object>>>,
}

impl Node {
    /// Tests if the node is a graph object.
    pub fn is_graph(&self) -> (r: bool)
        ensures
            r == (self.graph is Some),
    {
        self.graph.is_some()
    }

    /// The identifier of the node as a string, when it is identified.
    pub fn as_str(&self) -> (r: Option<&str>)
        ensures
            r is Some <==> self.id is Some,
            r matches Some(s) ==> s@ == self.id->0.spec_str(),
    {
        match &self.id {
            Some(rf) => Some(rf.as_str()),
            None => None,
        }
    }

    /// The identifier of the node, when it is identified by an IRI.
    pub fn as_iri(&self) -> (r: Option<&String>)
        ensures
            r is Some <==> (self.id matches Some(rf) && rf is Iri),
            r matches Some(s) ==> s@ == self.id->0.spec_str(),
    {
        match &self.id {
            Some(Reference::Iri(s)) => Some(s),
            _ => None,
        }
    }

    /// Whether the node's only substantive content is its graph set: no
    /// identifier, no properties, and a graph.
    pub open spec fn is_bare_graph(self) -> bool {
        self.id is None && self.properties@.len() == 0 && self.graph is Some
    }

    /// Converts the node into its bare unnamed graph when its only
    /// substantive content is that graph set; otherwise the node is
    /// returned unchanged.
    pub fn into_unnamed_graph(self) -> (r: Result<Vec<Indexed<Object>>, Node>)
        ensures
            match r {
                Ok(g) => self.is_bare_graph() && self.graph == Some(g),
                Err(n) => n == self && !self.is_bare_graph(),
            },
    {
        if self.id.is_none() && self.properties.len() == 0 {
            match self.graph {
                Some(g) => Ok(g),
                None => Err(Node { id: self.id, properties: self.properties, graph: None }),
            }
        } else {
            Err(self)
        }
    }
}

/// A JSON-LD object: a value object, a node object or a list object.
/// Exactly one variant is active at a time.
#[derive(Debug, PartialEq, Eq, Hash)]
pub enum Object {
    /// Value object.
    Value(Value),
    /// Node object.
    Node(Node),
    /// List object: an order-significant sequence of indexed objects.
    List(Vec<Indexed<Object>>),
}

/// Object reference: a non-owning view of an object's active variant.
pub enum Ref<'a> {
    /// Value object.
    Value(&'a Value),
    /// Node object.
    Node(&'a Node),
    /// List object.
    List(&'a Vec<Indexed<Object>>),
}

/// The capability view: any object-like type implements the single
/// `as_ref` operation, and all derived queries are computed once, against
/// the view, without per-wrapper duplication. The narrowing queries
/// return absence, never failure.
pub trait Any {
    /// The object this value presents through the view.
    spec fn obj(&self) -> Object;

    /// Views the value as an object reference.
    fn as_ref(&self) -> (r: Ref<'_>)
        ensures
            match r {
                Ref::Value(v) => self.obj() == Object::Value(*v),
                Ref::Node(n) => self.obj() == Object::Node(*n),
                Ref::List(l) => self.obj() == Object::List(*l),
            },
    ;

    /// The identifier, when the view is a node.
    fn id(&self) -> (r: Option<&Reference>)
        ensures
            match self.obj() {
                Object::Node(n) => {
                    &&& r is Some <==> n.id is Some
                    &&& r matches Some(a) ==> *a == n.id->0
                },
                _ => r is None,
            },
    {
        match self.as_ref() {
            Ref::Node(n) => n.id.as_ref(),
            _ => None,
        }
    }

    /// The language tag, when the view is a language-tagged value.
    fn language(&self) -> (r: Option<&String>)
        ensures
            match self.obj() {
                Object::Value(v) => {
                    &&& r is Some <==> v.spec_language() is Some
                    &&& r matches Some(t) ==> t@ == v.spec_language()->0
                },
                _ => r is None,
            },
    {
        match self.as_ref() {
            Ref::Value(v) => v.language(),
            _ => None,
        }
    }

    /// Tests if the view is a value object.
    fn is_value(&self) -> (r: bool)
        ensures
            r == (self.obj() is Value),
    {
        match self.as_ref() {
            Ref::Value(_) => true,
            _ => false,
        }
    }

    /// Tests if the view is a node object.
    fn is_node(&self) -> (r: bool)
        ensures
            r == (self.obj() is Node),
    {
        match self.as_ref() {
            Ref::Node(_) => true,
            _ => false,
        }
    }

    /// Tests if the view is a graph object: a node with a graph set.
    fn is_graph(&self) -> (r: bool)
        ensures
            r == (self.obj() matches Object::Node(n) && n.graph is Some),
    {
        match self.as_ref() {
            Ref::Node(n) => n.is_graph(),
            _ => false,
        }
    }

    /// Tests if the view is a list object.
    fn is_list(&self) -> (r: bool)
        ensures
            r == (self.obj() is List),
    {
        match self.as_ref() {
            Ref::List(_) => true,
            _ => false,
        }
    }
}

impl Any for Object {
    open spec fn obj(&self) -> Object {
        *self
    }

    fn as_ref(&self) -> (r: Ref<'_>) {
        match self {
            Object::Value(value) => Ref::Value(value),
            Object::Node(node) => Ref::Node(node),
            Object::List(list) => Ref::List(list),
        }
    }
}

impl<T: Any> Any for Indexed<T> {
    open spec fn obj(&self) -> Object {
        self.value.obj()
    }

    fn as_ref(&self) -> (r: Ref<'_>) {
        self.value.as_ref()
    }
}

impl Object {
    /// Identifier of the object, if it is a node object.
    pub fn id(&self) -> (r: Option<&Reference>)
        ensures
            match *self {
                Object::Node(n) => {
                    &&& r is Some <==> n.id is Some
                    &&& r matches Some(a) ==> *a == n.id->0
                },
                _ => r is None,
            },
    {
        match self {
            Object::Node(n) => n.id.as_ref(),
            _ => None,
        }
    }

    /// Identifier of the object as an IRI.
    ///
    /// If the object is a node identified by an IRI, returns this IRI.
    /// Returns `None` otherwise.
    pub fn as_iri(&self) -> (r: Option<&String>)
        ensures
            match *self {
                Object::Node(n) => {
                    &&& r is Some <==> (n.id matches Some(rf) && rf is Iri)
                    &&& r matches Some(s) ==> s@ == n.id->0.spec_str()
                },
                _ => r is None,
            },
    {
        match self {
            Object::Node(node) => node.as_iri(),
            _ => None,
        }
    }

    /// Tests if the object is a value.
    pub fn is_value(&self) -> (r: bool)
        ensures
            r == (*self is Value),
    {
        match self {
            Object::Value(_) => true,
            _ => false,
        }
    }

    /// Tests if the object is a node.
    pub fn is_node(&self) -> (r: bool)
        ensures
            r == (*self is Node),
    {
        match self {
            Object::Node(_) => true,
            _ => false,
        }
    }

    /// Tests if the object is a graph object (a node with a graph set).
    pub fn is_graph(&self) -> (r: bool)
        ensures
            r == (*self matches Object::Node(n) && n.graph is Some),
    {
        match self {
            Object::Node(n) => n.is_graph(),
            _ => false,
        }
    }

    /// Tests if the object is a list.
    pub fn is_list(&self) -> (r: bool)
        ensures
            r == (*self is List),
    {
        match self {
            Object::List(_) => true,
            _ => false,
        }
    }

    /// Get the object as a string.
    ///
    /// If the object is a value that is a string, returns this string.
    /// If the object is a node that is identified, returns the identifier
    /// as a string. Returns `None` otherwise.
    pub fn as_str(&self) -> (r: Option<&str>)
        ensures
            match *self {
                Object::Value(v) => {
                    &&& r is Some <==> v.spec_as_str() is Some
                    &&& r matches Some(s) ==> s@ == v.spec_as_str()->0
                },
                Object::Node(n) => {
                    &&& r is Some <==> n.id is Some
                    &&& r matches Some(s) ==> s@ == n.id->0.spec_str()
                },
                _ => r is None,
            },
    {
        match self {
            Object::Value(value) => value.as_str(),
            Object::Node(node) => node.as_str(),
            _ => None,
        }
    }

    /// Get the value as a boolean, if it is.
    pub fn as_bool(&self) -> (r: Option<bool>)
        ensures
            match *self {
                Object::Value(v) => r == v.spec_as_bool(),
                _ => r is None,
            },
    {
        match self {
            Object::Value(value) => value.as_bool(),
            _ => None,
        }
    }

    /// Get the value as a number, if it is.
    pub fn as_number(&self) -> (r: Option<&Number>)
        ensures
            match *self {
                Object::Value(v) => {
                    &&& r is Some <==> v.spec_as_number() is Some
                    &&& r matches Some(n) ==> n@ == v.spec_as_number()->0
                },
                _ => r is None,
            },
    {
        match self {
            Object::Value(value) => value.as_number(),
            _ => None,
        }
    }

    /// If the object is a language-tagged value, returns its associated
    /// language.
    pub fn language(&self) -> (r: Option<&String>)
        ensures
            match *self {
                Object::Value(v) => {
                    &&& r is Some <==> v.spec_language() is Some
                    &&& r matches Some(t) ==> t@ == v.spec_language()->0
                },
                _ => r is None,
            },
    {
        match self {
            Object::Value(value) => value.language(),
            _ => None,
        }
    }
}

/// The three object kinds are mutually exclusive: exactly one of value,
/// node and list holds of any object; and a graph object is always a node
/// object.
pub proof fn lemma_object_kind_exclusive(o: Object)
    ensures
        (if o is Value {
            1int
        } else {
            0int
        }) + (if o is Node {
            1int
        } else {
            0int
        }) + (if o is List {
            1int
        } else {
            0int
        }) == 1,
        (o matches Object::Node(n) && n.graph is Some) ==> o is Node,
{
}

impl Indexed<Object> {
    /// Try to convert this object into an unnamed graph: succeeds exactly
    /// when the wrapped object is a node whose only substantive content is
    /// its graph set; otherwise the envelope is returned unchanged.
    pub fn into_unnamed_graph(self) -> (r: Result<Vec<Indexed<Object>>, Indexed<Object>>)
        ensures
            match r {
                Ok(g) => self.value matches Object::Node(n) && n.is_bare_graph() && n.graph
                    == Some(g),
                Err(e) => e == self && !(self.value matches Object::Node(n)
                    && n.is_bare_graph()),
            },
    {
        let (obj, index) = self.into_parts();
        match obj {
            Object::Node(n) => match n.into_unnamed_graph() {
                Ok(g) => Ok(g),
                Err(n) => Err(Indexed::new(Object::Node(n), index)),
            },
            obj => Err(Indexed::new(obj, index)),
        }
    }
}

impl From<Value> for Object {
    fn from(value: Value) -> (r: Object) {
        Object::Value(value)
    }
}

impl vstd::std_specs::convert::FromSpecImpl<Value> for Object {
    open spec fn obeys_from_spec() -> bool {
        true
    }

    open spec fn from_spec(value: Value) -> Object {
        Object::Value(value)
    }
}

impl From<Node> for Object {
    fn from(node: Node) -> (r: Object) {
        Object::Node(node)
    }
}

impl vstd::std_specs::convert::FromSpecImpl<Node> for Object {
    open spec fn obeys_from_spec() -> bool {
        true
    }

    open spec fn from_spec(node: Node) -> Object {
        Object::Node(node)
    }
}

/// Iterator through indexed objects.
pub struct Objects<'a> {
    /// The objects walked over, when there are any.
    pub inner: Option<&'a Vec<Indexed<Object>>>,
    /// The position of the cursor.
    pub at: usize,
}

impl<'a> Objects<'a> {
    /// A cursor over the given objects; `None` stands for an empty set.
    pub fn new(inner: Option<&'a Vec<Indexed<Object>>>) -> (r: Objects<'a>)
        ensures
            r.inner == inner,
            r.at == 0,
    {
        Objects { inner, at: 0 }
    }

    /// Hands out the next indexed object, left to right.
    pub fn next(&mut self) -> (r: Option<&'a Indexed<Object>>)
        ensures
            match old(self).inner {
                None => r is None && *final(self) == *old(self),
                Some(v) => {
                    if old(self).at < v@.len() {
                        &&& r matches Some(x) && *x == v@[old(self).at as int]
                        &&& final(self).inner == old(self).inner
                        &&& final(self).at == old(self).at + 1
                    } else {
                        r is None && *final(self) == *old(self)
                    }
                },
            },
    {
        match self.inner {
            None => None,
            Some(v) => {
                if self.at < v.len() {
                    let r = &v[self.at];
                    self.at = self.at + 1;
                    Some(r)
                } else {
                    None
                }
            },
        }
    }
}

/// How a literal renders as a JSON value.
pub open spec fn literal_renders(lit: Literal, j: JsonValue) -> bool {
    match lit {
        Literal::Null => j is Null,
        Literal::Boolean(b) => j == JsonValue::Boolean(b),
        Literal::Number(n) => j is Number && j->Number_0@ == n@,
        Literal::String(s) => j is String && j->String_0@ == s@,
    }
}

/// How a value object renders: the entries of the rendered object, in
/// order — the value under the value keyword, then its datatype or
/// language tag, when it has one.
pub open spec fn value_renders_entries(v: Value, es: Seq<(String, JsonValue)>) -> bool {
    match v {
        Value::Literal(lit, ty) => {
            &&& es.len() == (if ty is Some {
                2int
            } else {
                1int
            })
            &&& es[0].0@ == "@value"@ && literal_renders(lit, es[0].1)
            &&& ty matches Some(t) ==> es[1].0@ == "@type"@ && es[1].1 is String
                && es[1].1->String_0@ == t@
        },
        Value::LangString(ls) => {
            &&& es.len() == (if ls.language is Some {
                2int
            } else {
                1int
            })
            &&& es[0].0@ == "@value"@ && es[0].1 is String && es[0].1->String_0@ == ls.text@
            &&& ls.language matches Some(tag) ==> es[1].0@ == "@language"@ && es[1].1 is String
                && es[1].1->String_0@ == tag@
        },
        Value::Json(doc) => {
            &&& es.len() == 2
            &&& es[0].0@ == "@value"@ && crate::syntax::same_json(es[0].1, doc)
            &&& es[1].0@ == "@type"@ && es[1].1 is String && es[1].1->String_0@ == "@json"@
        },
    }
}

/// How an object renders: a value object by its value entries, a node
/// object by its node entries, and a list object as an object with one
/// entry holding the reserved list marker and the array of its rendered
/// elements.
pub open spec fn object_renders_entries(o: Object, es: Seq<(String, JsonValue)>) -> bool
    decreases o, 1int,
{
    match o {
        Object::Value(v) => value_renders_entries(v, es),
        Object::Node(n) => node_renders_entries(n, es),
        Object::List(items) => es.len() == 1 && es[0].0@ == "@list"@ && es[0].1 is Array
            && indexed_list_renders(items@, es[0].1->Array_0@),
    }
}

/// How a node object renders: its identifier first, then one entry per
/// property holding the array of the property's rendered objects, then
/// the rendered members of its graph set, when it has one.
pub open spec fn node_renders_entries(n: Node, es: Seq<(String, JsonValue)>) -> bool
    decreases n, 2int,
{
    let idn: int = if n.id is Some {
        1int
    } else {
        0int
    };
    let gn: int = if n.graph is Some {
        1int
    } else {
        0int
    };
    &&& es.len() == idn + n.properties@.len() + gn
    &&& n.id matches Some(rf) ==> es[0].0@ == "@id"@ && es[0].1 is String
        && es[0].1->String_0@ == rf.spec_str()
    &&& forall|p: int|
        0 <= p < n.properties@.len() ==> {
            let e = #[trigger] es[idn + p];
            e.0@ == n.properties@[p].0.spec_str() && e.1 is Array && indexed_list_renders(
                n.properties@[p].1@,
                e.1->Array_0@,
            )
        }
    &&& n.graph matches Some(g) ==> {
        let e = es[es.len() - 1];
        e.0@ == "@graph"@ && e.1 is Array && indexed_list_renders(g@, e.1->Array_0@)
    }
}

/// Elementwise rendering of a sequence of indexed objects.
pub open spec fn indexed_list_renders(items: Seq<Indexed<Object>>, out: Seq<JsonValue>) -> bool
    decreases items, 1int,
{
    out.len() == items.len() && forall|k: int|
        0 <= k < items.len() ==> indexed_renders(#[trigger] items[k], out[k])
}

/// How an indexed object renders: the rendering of the wrapped object,
/// with the index tag appended as one more entry when there is one.
pub open spec fn indexed_renders(x: Indexed<Object>, j: JsonValue) -> bool
    decreases x, 0int,
{
    j is Object && {
        let es = j->Object_0@;
        match x.index {
            None => object_renders_entries(x.value, es),
            Some(idx) => {
                &&& es.len() >= 1
                &&& es[es.len() - 1].0@ == "@index"@
                &&& es[es.len() - 1].1 is String && es[es.len() - 1].1->String_0@ == idx@
                &&& object_renders_entries(x.value, es.drop_last())
            },
        }
    }
}

/// How an object renders as a whole JSON value: always a JSON object.
pub open spec fn renders_to(o: Object, j: JsonValue) -> bool {
    j is Object && object_renders_entries(o, j->Object_0@)
}

impl Value {
    /// Renders the value object as a JSON value.
    pub fn as_json(&self) -> (r: JsonValue)
        ensures
            r is Object && value_renders_entries(*self, r->Object_0@),
    {
        let mut es: Vec<(String, JsonValue)> = Vec::new();
        match self {
            Value::Literal(lit, ty) => {
                let rendered = match lit {
                    Literal::Null => JsonValue::Null,
                    Literal::Boolean(b) => JsonValue::Boolean(*b),
                    Literal::Number(n) => JsonValue::Number(
                        Number { repr: n.repr.clone() },
                    ),
                    Literal::String(s) => JsonValue::String(s.clone()),
                };
                es.push((String::from_str("@value"), rendered));
                match ty {
                    Some(t) => {
                        es.push((String::from_str("@type"), JsonValue::String(t.clone())));
                    },
                    None => {},
                }
            },
            Value::LangString(ls) => {
                es.push((String::from_str("@value"), JsonValue::String(ls.text.clone())));
                match &ls.language {
                    Some(tag) => {
                        es.push((
                            String::from_str("@language"),
                            JsonValue::String(tag.clone()),
                        ));
                    },
                    None => {},
                }
            },
            Value::Json(doc) => {
                es.push((String::from_str("@value"), crate::syntax::clone_json(doc)));
                es.push((
                    String::from_str("@type"),
                    JsonValue::String(String::from_str("@json")),
                ));
            },
        }
        proof {
            assert(value_renders_entries(*self, es@));
        }
        JsonValue::Object(es)
    }
}

/// Renders each indexed object of a list.
fn indexed_list_as_json(items: &Vec<Indexed<Object>>) -> (r: Vec<JsonValue>)
    ensures
        indexed_list_renders(items@, r@),
    decreases items@, 1int,
{
    let mut out: Vec<JsonValue> = Vec::new();
    let mut k: usize = 0;
    while k < items.len()
        invariant
            k <= items@.len(),
            out@.len() == k,
            forall|q: int| 0 <= q < k ==> indexed_renders(#[trigger] items@[q], out@[q]),
        decreases items@.len() - k,
    {
        proof {
            assert(decreases_to!(items@ => items@[k as int]));
        }
        let j = items[k].as_json();
        out.push(j);
        k = k + 1;
    }
    out
}

impl Indexed<Object> {
    /// Renders the indexed object: the rendering of the wrapped object,
    /// with the index tag appended when there is one.
    pub fn as_json(&self) -> (r: JsonValue)
        ensures
            indexed_renders(*self, r),
        decreases self.value, 2int,
    {
        let json = self.value.as_json();
        match &self.index {
            None => json,
            Some(idx) => {
                match json {
                    JsonValue::Object(mut es) => {
                        let ghost before = es@;
                        es.push((String::from_str("@index"), JsonValue::String(idx.clone())));
                        proof {
                            assert(es@.drop_last() =~= before);
                        }
                        JsonValue::Object(es)
                    },
                    // A rendered object is always a JSON object, so this
                    // arm is unreachable.
                    other => other,
                }
            },
        }
    }
}

impl Node {
    /// Renders the node object: identifier, properties, then graph set.
    pub fn as_json(&self) -> (r: JsonValue)
        ensures
            r is Object && node_renders_entries(*self, r->Object_0@),
        decreases *self, 3int,
    {
        let ghost idn: int = if self.id is Some {
            1int
        } else {
            0int
        };
        let mut es: Vec<(String, JsonValue)> = Vec::new();
        match &self.id {
            Some(rf) => {
                es.push((
                    String::from_str("@id"),
                    JsonValue::String(String::from_str(rf.as_str())),
                ));
            },
            None => {},
        }
        let mut p: usize = 0;
        while p < self.properties.len()
            invariant
                idn == (if self.id is Some {
                    1int
                } else {
                    0int
                }),
                p <= self.properties@.len(),
                es@.len() == idn + p,
                self.id matches Some(rf) ==> es@[0].0@ == "@id"@ && es@[0].1 is String
                    && es@[0].1->String_0@ == rf.spec_str(),
                forall|q: int|
                    0 <= q < p ==> {
                        let e = #[trigger] es@[idn + q];
                        e.0@ == self.properties@[q].0.spec_str() && e.1 is Array
                            && indexed_list_renders(self.properties@[q].1@, e.1->Array_0@)
                    },
            decreases self.properties@.len() - p,
        {
            proof {
                assert(decreases_to!(*self => self.properties));
                assert(decreases_to!(self.properties => self.properties@));
                assert(decreases_to!(self.properties@ => self.properties@[p as int]));
                assert(decreases_to!(
                    self.properties@[p as int] => self.properties@[p as int].1));
            }
            let key = String::from_str(self.properties[p].0.as_str());
            let arr = indexed_list_as_json(&self.properties[p].1);
            es.push((key, JsonValue::Array(arr)));
            p = p + 1;
        }
        match &self.graph {
            Some(g) => {
                proof {
                    assert(decreases_to!(*self => self.graph));
                    assert(decreases_to!(self.graph => *g));
                }
                let arr = indexed_list_as_json(g);
                es.push((String::from_str("@graph"), JsonValue::Array(arr)));
            },
            None => {},
        }
        proof {
            assert(node_renders_entries(*self, es@));
        }
        JsonValue::Object(es)
    }
}

impl Object {
    /// Renders the object as a JSON value: a value object by its value
    /// entries, a node object by its node entries, and a list object as
    /// an object with one entry holding the reserved list marker and the
    /// array of its rendered elements.
    pub fn as_json(&self) -> (r: JsonValue)
        ensures
            renders_to(*self, r),
        decreases *self, 1int,
    {
        match self {
            Object::Value(v) => v.as_json(),
            Object::Node(n) => {
                proof {
                    assert(decreases_to!(*self => (*self)->Node_0));
                    assert((*self)->Node_0 == *n);
                }
                n.as_json()
            },
            Object::List(items) => {
                proof {
                    assert(decreases_to!(*self => (*self)->List_0));
                    assert((*self)->List_0 == *items);
                    assert(decreases_to!(*items => items@));
                }
                let arr = indexed_list_as_json(items);
                let mut es: Vec<(String, JsonValue)> = Vec::new();
                es.push((String::from_str("@list"), JsonValue::Array(arr)));
                JsonValue::Object(es)
            },
        }
    }
}

/// Renders a set of indexed objects — a graph object's member set — as
/// the array of its rendered members.
pub fn object_set_as_json(objects: &Vec<Indexed<Object>>) -> (r: JsonValue)
    ensures
        r is Array && indexed_list_renders(objects@, r->Array_0@),
{
    JsonValue::Array(indexed_list_as_json(objects))
}

} // verus!
