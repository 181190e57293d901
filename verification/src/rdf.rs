//! RDF term mapping.
//!
//! [`Value::interpretation`] converts a value object into exactly one RDF
//! literal term, performing datatype coercion for numbers and language-tag
//! interning for language-tagged strings. Values never produce identifier
//! terms — identity is a node concern — so the result type has literal
//! variants only. Only the language-tag path mutates shared state (the
//! vocabulary); every other path is pure.

use vstd::prelude::*;
use vstd::string::StringExecFns;
use crate::syntax::JsonValue;
use crate::syntax::clone_json;
use crate::syntax::same_json;
use crate::object::Literal;
use crate::object::Value;

verus! {

/// The standard integer datatype identifier.
pub open spec fn xsd_integer() -> Seq<char> {
    "http://www.w3.org/2001/XMLSchema#integer"@
}

/// The standard double datatype identifier.
pub open spec fn xsd_double() -> Seq<char> {
    "http://www.w3.org/2001/XMLSchema#double"@
}

/// The standard integer datatype identifier.
pub fn xsd_integer_str() -> (r: &'static str)
    ensures
        r@ == xsd_integer(),
{
    "http://www.w3.org/2001/XMLSchema#integer"
}

/// The standard double datatype identifier.
pub fn xsd_double_str() -> (r: &'static str)
    ensures
        r@ == xsd_double(),
{
    "http://www.w3.org/2001/XMLSchema#double"
}

/// The classification of a declared numeric datatype: the standard
/// integer identifier, the standard double identifier, or anything else,
/// which matches either kind.
#[derive(Clone, Copy, Debug, PartialEq, Eq, Structural)]
pub enum NumericType {
    Integer,
    Double,
    Unknown,
}

impl NumericType {
    /// Whether this classification permits the other kind; `Unknown`
    /// permits anything.
    pub open spec fn spec_permits(self, other: NumericType) -> bool {
        self == other || self is Unknown
    }

    /// Whether this classification permits the other kind.
    pub fn permits(self, other: NumericType) -> (r: bool)
        ensures
            r == self.spec_permits(other),
    {
        self == other || matches!(self, NumericType::Unknown)
    }
}

/// Classifies an optional datatype identifier by exact match against the
/// standard integer and double identifiers; anything else or absent is
/// `Unknown`.
pub open spec fn spec_classify(ty: Option<Seq<char>>) -> NumericType {
    match ty {
        None => NumericType::Unknown,
        Some(s) => if s == xsd_integer() {
            NumericType::Integer
        } else if s == xsd_double() {
            NumericType::Double
        } else {
            NumericType::Unknown
        },
    }
}

/// Classifies an optional datatype identifier.
pub fn classify(ty: &Option<String>) -> (c: NumericType)
    ensures
        c == spec_classify(
            match *ty {
                Some(s) => Some(s@),
                None => None,
            },
        ),
{
    match ty {
        None => NumericType::Unknown,
        Some(s) => {
            if s.eq(&String::from_str(xsd_integer_str())) {
                NumericType::Integer
            } else if s.eq(&String::from_str(xsd_double_str())) {
                NumericType::Double
            } else {
                NumericType::Unknown
            }
        },
    }
}

/// The exact 64-bit integer value of a lexical JSON number, when it has
/// one.
pub uninterp spec fn number_as_i64(s: Seq<char>) -> Option<i64>;

/// Relies on `json_syntax::Number`: `new` accepts exactly the lexical
/// JSON numbers, and `as_i64` returns the number's exact signed-64-bit
/// integer value when it has one. The result depends on the characters
/// alone.
#[verifier::external_body]
fn lexical_as_i64(s: &str) -> (r: Option<i64>)
    ensures
        r == number_as_i64(s@),
{
    match json_syntax::Number::new(s) {
        Ok(n) => n.as_i64(),
        Err(_) => None,
    }
}

/// The bit pattern of the lossy 64-bit floating conversion of a lexical
/// JSON number.
pub uninterp spec fn number_double_bits(s: Seq<char>) -> u64;

/// Relies on `json_syntax::Number::as_f64_lossy`: the lossy 64-bit
/// floating conversion of the lexical form, carried here as the bit
/// pattern of the IEEE 754 value. The result depends on the characters
/// alone.
#[verifier::external_body]
fn lexical_double_bits(s: &str) -> (r: u64)
    ensures
        r == number_double_bits(s@),
{
    match json_syntax::Number::new(s) {
        Ok(n) => n.as_f64_lossy().to_bits(),
        Err(_) => 0,
    }
}

/// Whether a string is a well-formed structured language tag.
pub uninterp spec fn language_tag_well_formed(s: Seq<char>) -> bool;

/// Relies on `langtag::LangTag::new`: accepts exactly the well-formed
/// RFC 5646 language tags. Validity depends on the characters alone.
#[verifier::external_body]
fn check_language_tag(s: &str) -> (r: bool)
    ensures
        r == language_tag_well_formed(s@),
{
    langtag::LangTag::new(s).is_ok()
}

/// An RDF literal term. Value objects never produce identifier terms, so
/// the mapping's result type has literal variants only.
#[derive(Debug, PartialEq, Eq)]
pub enum RdfLiteral {
    /// A plain string literal.
    String(String),
    /// A boolean literal.
    Boolean(bool),
    /// An integer literal.
    Integer(i64),
    /// A double literal, carried as the bit pattern of its IEEE 754
    /// value.
    Double(u64),
    /// A language-tagged string literal: the text and the vocabulary
    /// index of its interned language tag.
    LangString(String, usize),
    /// A JSON literal carrying an embedded document.
    Json(JsonValue),
}

/// The vocabulary capability: an append-only interning table of language
/// tags. Entries are never removed or rewritten.
pub struct Vocabulary {
    /// The interned language tags, in insertion order.
    pub tags: Vec<String>,
}

impl Vocabulary {
    /// The interned tags, as character sequences.
    pub open spec fn tag_seq(self) -> Seq<Seq<char>> {
        Seq::new(self.tags@.len(), |i: int| self.tags@[i]@)
    }

    /// No tag is interned twice.
    pub open spec fn wf(self) -> bool {
        forall|i: int, j: int|
            0 <= i < j < self.tag_seq().len() ==> self.tag_seq()[i] != self.tag_seq()[j]
    }

    /// Whether `tag` is already interned.
    pub open spec fn has_tag(self, tag: Seq<char>) -> bool {
        exists|i: int| 0 <= i < self.tag_seq().len() && self.tag_seq()[i] == tag
    }

    /// A fresh, empty vocabulary.
    pub fn new() -> (v: Vocabulary)
        ensures
            v.tag_seq().len() == 0,
            v.wf(),
    {
        Vocabulary { tags: Vec::new() }
    }

    /// Interns `tag`: hands back the index of the existing entry when the
    /// tag is already present, else appends it and hands back the index
    /// of the new entry. The table only ever grows.
    pub fn insert_language_tag(&mut self, tag: &str) -> (i: usize)
        requires
            old(self).wf(),
        ensures
            final(self).wf(),
            i < final(self).tag_seq().len(),
            final(self).tag_seq()[i as int] == tag@,
            old(self).has_tag(tag@) ==> final(self).tag_seq() == old(self).tag_seq(),
            !old(self).has_tag(tag@) ==> final(self).tag_seq() == old(self).tag_seq().push(
                tag@,
            ),
    {
        let tag_string = String::from_str(tag);
        let mut k: usize = 0;
        while k < self.tags.len()
            invariant
                k <= self.tags@.len(),
                old(self).wf(),
                *self == *old(self),
                tag_string@ == tag@,
                forall|t: int| 0 <= t < k ==> (#[trigger] self.tags@[t])@ != tag@,
            decreases self.tags@.len() - k,
        {
            if self.tags[k].eq(&tag_string) {
                proof {
                    assert(self.tag_seq()[k as int] == tag@);
                }
                return k;
            }
            k = k + 1;
        }
        proof {
            assert(!old(self).has_tag(tag@));
        }
        let i = self.tags.len();
        self.tags.push(tag_string);
        proof {
            assert(final(self).tag_seq() =~= old(self).tag_seq().push(tag@));
        }
        i
    }
}

impl Value {
    /// Maps the value to exactly one RDF literal term.
    ///
    /// Null maps to a plain string literal `null` (the document
    /// convention: RDF has no native null). A number maps to an integer
    /// literal when it has an exact signed-64-bit-integer value and the
    /// declared datatype permits an integer, else to a double literal by
    /// lossy conversion. A language-tagged string whose tag is well
    /// formed interns the tag and maps to a language-tagged literal; a
    /// malformed tag degrades to a plain string literal with the tag
    /// dropped. An embedded JSON document maps to a JSON literal carrying
    /// a copy of the document.
    pub fn interpretation(&self, vocabulary: &mut Vocabulary) -> (t: RdfLiteral)
        requires
            old(vocabulary).wf(),
        ensures
            final(vocabulary).wf(),
            match *self {
                Value::Literal(lit, ty) => final(vocabulary).tag_seq()
                    == old(vocabulary).tag_seq() && (match lit {
                    Literal::Null => t matches RdfLiteral::String(s) && s@ == "null"@,
                    Literal::Boolean(b) => t == RdfLiteral::Boolean(b),
                    Literal::Number(n) => {
                        let cls = spec_classify(
                            match ty {
                                Some(s) => Some(s@),
                                None => None,
                            },
                        );
                        match number_as_i64(n@) {
                            Some(v) => if cls.spec_permits(NumericType::Integer) {
                                t == RdfLiteral::Integer(v)
                            } else {
                                t == RdfLiteral::Double(number_double_bits(n@))
                            },
                            None => t == RdfLiteral::Double(number_double_bits(n@)),
                        }
                    },
                    Literal::String(s) => t matches RdfLiteral::String(u) && u@ == s@,
                }),
                Value::LangString(ls) => match ls.language {
                    Some(tag) => if language_tag_well_formed(tag@) {
                        &&& t matches RdfLiteral::LangString(u, idx) && u@ == ls.text@
                            && idx < final(vocabulary).tag_seq().len()
                            && final(vocabulary).tag_seq()[idx as int] == tag@
                        &&& old(vocabulary).has_tag(tag@) ==> final(vocabulary).tag_seq()
                            == old(vocabulary).tag_seq()
                        &&& !old(vocabulary).has_tag(tag@) ==> final(vocabulary).tag_seq()
                            == old(vocabulary).tag_seq().push(tag@)
                    } else {
                        t matches RdfLiteral::String(u) && u@ == ls.text@
                            && final(vocabulary).tag_seq() == old(vocabulary).tag_seq()
                    },
                    None => t matches RdfLiteral::String(u) && u@ == ls.text@
                        && final(vocabulary).tag_seq() == old(vocabulary).tag_seq(),
                },
                Value::Json(doc) => t matches RdfLiteral::Json(d) && same_json(d, doc)
                    && final(vocabulary).tag_seq() == old(vocabulary).tag_seq(),
            },
    {
        match self {
            Value::Literal(lit, ty) => match lit {
                Literal::Null => RdfLiteral::String(String::from_str("null")),
                Literal::Boolean(b) => RdfLiteral::Boolean(*b),
                Literal::Number(n) => {
                    let cls = classify(ty);
                    match lexical_as_i64(n.as_str()) {
                        Some(v) => if cls.permits(NumericType::Integer) {
                            RdfLiteral::Integer(v)
                        } else {
                            RdfLiteral::Double(lexical_double_bits(n.as_str()))
                        },
                        None => RdfLiteral::Double(lexical_double_bits(n.as_str())),
                    }
                },
                Literal::String(s) => RdfLiteral::String(s.clone()),
            },
            Value::LangString(ls) => match &ls.language {
                Some(tag) => {
                    if check_language_tag(tag.as_str()) {
                        let idx = vocabulary.insert_language_tag(tag.as_str());
                        RdfLiteral::LangString(ls.text.clone(), idx)
                    } else {
                        RdfLiteral::String(ls.text.clone())
                    }
                },
                None => RdfLiteral::String(ls.text.clone()),
            },
            Value::Json(doc) => RdfLiteral::Json(clone_json(doc)),
        }
    }
}

} // verus!

