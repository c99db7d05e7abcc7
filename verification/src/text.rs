//! Reading a document from JSON text and writing it back.
//!
//! The text layer is the one place where an outside JSON library does the
//! work: parsing text into a tree and printing a tree as text.  Each call
//! stands behind a trusted wrapper; everything on either side of the tree
//! is verified against the codec in [`crate::codec`].

use vstd::prelude::*;

use crate::codec::{decode_document, encode_document, wf_doc};
use crate::codec::{lemma_rt_document, lemma_wf_document};
use crate::error::{Error, ErrorV};
use crate::json::{wf_json, Json, JsonV};
use crate::model::{Document, DocumentV};

verus! {

#[verifier::external_type_specification]
#[verifier::external_body]
pub struct ExValue(serde_json::Value);

/// The JSON tree that a `serde_json::Value` holds, with numbers as their
/// decimal text.
pub uninterp spec fn value_model(v: serde_json::Value) -> JsonV;

/// What parsing a piece of text as JSON yields: the tree, or the parse
/// error's message.  Parsing is a function of the text alone.
pub uninterp spec fn json_of_text(s: Seq<char>) -> Result<JsonV, Seq<char>>;

/// What printing a JSON tree as text yields; a function of the tree
/// alone.
pub uninterp spec fn text_of_json(j: JsonV) -> Seq<char>;

/// A successful parse outcome.
pub open spec fn parse_ok(j: JsonV) -> Result<JsonV, Seq<char>> {
    Result::Ok(j)
}

/// A parse outcome, seen at the specification level.
pub open spec fn parse_outcome_view(r: Result<Json, String>) -> Result<JsonV, Seq<char>> {
    match r {
        Result::Ok(j) => Result::Ok(j@),
        Result::Err(m) => Result::Err(m@),
    }
}

/// Relies on `serde_json::Value`: each variant of the outside tree is
/// moved into the library's own tree, numbers as their decimal text.
#[verifier::external_body]
fn json_of_value(v: serde_json::Value) -> (r: Json)
    ensures
        r@ == value_model(v),
{
    match v {
        serde_json::Value::Null => Json::Null,
        serde_json::Value::Bool(b) => Json::Bool(b),
        serde_json::Value::Number(n) => Json::Number(n.to_string()),
        serde_json::Value::String(s) => Json::Str(s),
        serde_json::Value::Array(a) => Json::Array(a.into_iter().map(json_of_value).collect()),
        serde_json::Value::Object(m) => Json::Object(
            m.into_iter().map(|(k, x)| (k, json_of_value(x))).collect(),
        ),
    }
}

/// Relies on `serde_json::Number`'s `FromStr`: the inverse of
/// [`json_of_value`] for trees without numbers; a number whose text does
/// not parse back falls to `null`, which no well-formed tree holds.
#[verifier::external_body]
fn value_of_json(j: &Json) -> (v: serde_json::Value)
    ensures
        wf_json(j@) ==> value_model(v) == j@,
{
    match j {
        Json::Null => serde_json::Value::Null,
        Json::Bool(b) => serde_json::Value::Bool(*b),
        Json::Number(n) => match n.parse::<serde_json::Number>() {
            Ok(num) => serde_json::Value::Number(num),
            Err(_) => serde_json::Value::Null,
        },
        Json::Str(s) => serde_json::Value::String(s.clone()),
        Json::Array(a) => serde_json::Value::Array(a.iter().map(value_of_json).collect()),
        Json::Object(o) => serde_json::Value::Object(
            o.iter().map(|(k, x)| (k.clone(), value_of_json(x))).collect(),
        ),
    }
}

/// Relies on `serde_json::from_str::<Value>`: text is parsed into a JSON
/// tree, or rejected with a message naming the offending position; the
/// outcome is a function of the text alone.
#[verifier::external_body]
fn parse_json_text(text: &str) -> (r: Result<Json, String>)
    ensures
        parse_outcome_view(r) == json_of_text(text@),
{
    match serde_json::from_str::<serde_json::Value>(text) {
        Ok(v) => Ok(json_of_value(v)),
        Err(e) => Err(e.to_string()),
    }
}

/// Relies on `serde_json::to_string`: a `Value` always prints (its
/// serializer cannot fail and its maps have string keys), and a printed
/// value, here one without numbers, whose objects repeat no key, kept in
/// order by the library's `preserve_order` feature, parses back to the
/// same value.
#[verifier::external_body]
fn json_to_text(j: &Json) -> (r: String)
    ensures
        r@ == text_of_json(j@),
        wf_json(j@) ==> json_of_text(r@) == parse_ok(j@),
{
    match serde_json::to_string(&value_of_json(j)) {
        Ok(s) => s,
        Err(_) => String::new(),
    }
}

/// What parsing specification text yields: a document model value, or
/// nothing when the text is not JSON or not of the document's shape.
pub open spec fn parsed_document(text: Seq<char>) -> Option<DocumentV> {
    match json_of_text(text) {
        Result::Ok(j) => decode_document(j),
        Result::Err(_) => Option::None,
    }
}

impl Document {
    /// Parses specification text into a document, or reports what was
    /// wrong with it: the JSON parser's message for malformed text, a
    /// fixed message for well-formed JSON of the wrong shape.
    pub fn parse(text: &str) -> (r: Result<Document, Error>)
        ensures
            ({
                match json_of_text(text@) {
                    Result::Err(m) => r matches Err(e) && e@ == (ErrorV::MalformedDocument {
                        message: m,
                    }),
                    Result::Ok(j) => match decode_document(j) {
                        Option::Some(dv) => r matches Ok(d) && d@ == dv,
                        Option::None => r matches Err(e) && e@ == (ErrorV::MalformedDocument {
                            message: "the document does not have the expected shape"@,
                        }),
                    },
                }
            }),
            r matches Ok(d) ==> parsed_document(text@) == Option::Some(d@),
            r matches Err(_) ==> parsed_document(text@) is None,
    {
        match parse_json_text(text) {
            Result::Ok(json) => match Document::from_json(&json) {
                Option::Some(d) => Result::Ok(d),
                Option::None => Result::Err(
                    Error::MalformedDocument {
                        message: String::from_str(
                            "the document does not have the expected shape",
                        ),
                    },
                ),
            },
            Result::Err(m) => Result::Err(Error::MalformedDocument { message: m }),
        }
    }

    /// Prints this document as JSON text.
    ///
    /// For a document whose component names are unique within each
    /// mapping, parsing the printed text gives the document back: the
    /// round trip holds for every such document.
    pub fn serialize(&self) -> (r: String)
        ensures
            r@ == text_of_json(encode_document(self@)),
            wf_doc(self@) ==> json_of_text(r@) == parse_ok(encode_document(self@)),
            wf_doc(self@) ==> parsed_document(r@) == Option::Some(self@),
    {
        let j = self.to_json();
        proof {
            if wf_doc(self@) {
                lemma_wf_document(self@);
            }
            lemma_rt_document(self@);
        }
        json_to_text(&j)
    }
}

} // verus!
