//! Readers for the plain members of a record: texts, numbers, flags and
//! lists of texts. Each reader has a spec function that says what it accepts.

use vstd::prelude::*;

use crate::json::{lemma_view_of_array, views_of, Json, JsonView};

verus! {

/// Why a record could not be decoded.
#[derive(Debug, Clone, Copy, PartialEq, Eq, Structural)]
pub enum DecodeError {
    /// The text is not a JSON document.
    Syntax,
    /// The document has not the shape of a record.
    Schema,
}

/// A required text.
pub open spec fn as_text(v: Option<JsonView>) -> Option<Seq<char>> {
    match v {
        Some(JsonView::Text(s)) => Some(s),
        _ => None,
    }
}

/// A text that may be absent or `null`.
pub open spec fn as_opt_text(v: Option<JsonView>) -> Option<Option<Seq<char>>> {
    match v {
        None | Some(JsonView::Null) => Some(None),
        Some(JsonView::Text(s)) => Some(Some(s)),
        _ => None,
    }
}

/// A required number that fits in 32 bits.
pub open spec fn as_u32(v: Option<JsonView>) -> Option<u32> {
    match v {
        Some(JsonView::Number(Some(n))) => if n <= u32::MAX {
            Some(n as u32)
        } else {
            None
        },
        _ => None,
    }
}

/// A number that fits in 32 bits and may be absent or `null`.
pub open spec fn as_opt_u32(v: Option<JsonView>) -> Option<Option<u32>> {
    match v {
        None | Some(JsonView::Null) => Some(None),
        Some(JsonView::Number(Some(n))) => if n <= u32::MAX {
            Some(Some(n as u32))
        } else {
            None
        },
        _ => None,
    }
}

/// A required number that fits in a `usize`.
pub open spec fn as_usize(v: Option<JsonView>) -> Option<usize> {
    match v {
        Some(JsonView::Number(Some(n))) => if n <= usize::MAX {
            Some(n as usize)
        } else {
            None
        },
        _ => None,
    }
}

/// A required flag.
pub open spec fn as_bool(v: Option<JsonView>) -> Option<bool> {
    match v {
        Some(JsonView::Bool(b)) => Some(b),
        _ => None,
    }
}

/// Whether every item is a text.
pub open spec fn all_texts(items: Seq<JsonView>) -> bool {
    forall|i: int| 0 <= i < items.len() ==> (#[trigger] items[i]) is Text
}

/// The texts that the items hold.
pub open spec fn texts_of(items: Seq<JsonView>) -> Seq<Seq<char>> {
    Seq::new(items.len(), |i: int| items[i]->Text_0)
}

/// A required list of texts.
pub open spec fn as_texts(v: Option<JsonView>) -> Option<Seq<Seq<char>>> {
    match v {
        Some(JsonView::Array(items)) => if all_texts(items) {
            Some(texts_of(items))
        } else {
            None
        },
        _ => None,
    }
}

/// A list of texts that may be absent or `null`.
pub open spec fn as_opt_texts(v: Option<JsonView>) -> Option<Option<Seq<Seq<char>>>> {
    match v {
        None | Some(JsonView::Null) => Some(None),
        Some(JsonView::Array(items)) => if all_texts(items) {
            Some(Some(texts_of(items)))
        } else {
            None
        },
        _ => None,
    }
}

/// Reads the text member `key`.
pub fn text_at(j: &Json, key: &str) -> (r: Result<String, DecodeError>)
    ensures
        match r {
            Ok(s) => as_text(j@.member(key@)) == Some(s@),
            Err(e) => e == DecodeError::Schema && as_text(j@.member(key@)) is None,
        },
{
    match j.get(key) {
        Some(Json::Text(s)) => Ok(s.clone()),
        _ => Err(DecodeError::Schema),
    }
}

/// Reads the optional text member `key`.
pub fn opt_text_at(j: &Json, key: &str) -> (r: Result<Option<String>, DecodeError>)
    ensures
        match r {
            Ok(s) => as_opt_text(j@.member(key@)) == Some(s.deep_view()),
            Err(e) => e == DecodeError::Schema && as_opt_text(j@.member(key@)) is None,
        },
{
    match j.get(key) {
        None | Some(Json::Null) => Ok(None),
        Some(Json::Text(s)) => Ok(Some(s.clone())),
        _ => Err(DecodeError::Schema),
    }
}

/// Reads the 32-bit member `key`.
pub fn u32_at(j: &Json, key: &str) -> (r: Result<u32, DecodeError>)
    ensures
        match r {
            Ok(n) => as_u32(j@.member(key@)) == Some(n),
            Err(e) => e == DecodeError::Schema && as_u32(j@.member(key@)) is None,
        },
{
    match j.get(key) {
        Some(Json::Number(Some(n))) => if *n <= u32::MAX as u64 {
            Ok(*n as u32)
        } else {
            Err(DecodeError::Schema)
        },
        _ => Err(DecodeError::Schema),
    }
}

/// Reads the optional 32-bit member `key`.
pub fn opt_u32_at(j: &Json, key: &str) -> (r: Result<Option<u32>, DecodeError>)
    ensures
        match r {
            Ok(n) => as_opt_u32(j@.member(key@)) == Some(n),
            Err(e) => e == DecodeError::Schema && as_opt_u32(j@.member(key@)) is None,
        },
{
    match j.get(key) {
        None | Some(Json::Null) => Ok(None),
        Some(Json::Number(Some(n))) => if *n <= u32::MAX as u64 {
            Ok(Some(*n as u32))
        } else {
            Err(DecodeError::Schema)
        },
        _ => Err(DecodeError::Schema),
    }
}

/// Reads the member `key` as an index or a count.
pub fn usize_at(j: &Json, key: &str) -> (r: Result<usize, DecodeError>)
    ensures
        match r {
            Ok(n) => as_usize(j@.member(key@)) == Some(n),
            Err(e) => e == DecodeError::Schema && as_usize(j@.member(key@)) is None,
        },
{
    match j.get(key) {
        Some(Json::Number(Some(n))) => if *n <= usize::MAX as u64 {
            Ok(*n as usize)
        } else {
            Err(DecodeError::Schema)
        },
        _ => Err(DecodeError::Schema),
    }
}

/// Reads the flag member `key`.
pub fn bool_at(j: &Json, key: &str) -> (r: Result<bool, DecodeError>)
    ensures
        match r {
            Ok(b) => as_bool(j@.member(key@)) == Some(b),
            Err(e) => e == DecodeError::Schema && as_bool(j@.member(key@)) is None,
        },
{
    match j.get(key) {
        Some(Json::Bool(b)) => Ok(*b),
        _ => Err(DecodeError::Schema),
    }
}

/// Copies the texts out of a list of items, if all of them are texts.
fn texts_in(items: &Vec<Json>) -> (r: Option<Vec<String>>)
    ensures
        match r {
            Some(v) => all_texts(views_of(items@)) && v.deep_view() == texts_of(views_of(items@)),
            None => !all_texts(views_of(items@)),
        },
{
    let mut out: Vec<String> = Vec::new();
    let mut i: usize = 0;
    while i < items.len()
        invariant
            i <= items@.len(),
            out@.len() == i,
            forall|k: int| 0 <= k < i ==> (#[trigger] views_of(items@)[k]) is Text,
            forall|k: int| 0 <= k < i ==> (#[trigger] out@[k])@ == views_of(items@)[k]->Text_0,
        decreases items@.len() - i,
    {
        match &items[i] {
            Json::Text(s) => out.push(s.clone()),
            _ => {
                assert(!(views_of(items@)[i as int] is Text));
                return None;
            },
        }
        i += 1;
    }
    assert(out.deep_view() =~= texts_of(views_of(items@)));
    Some(out)
}

/// Reads the member `key` as a list of texts.
pub fn texts_at(j: &Json, key: &str) -> (r: Result<Vec<String>, DecodeError>)
    ensures
        match r {
            Ok(v) => as_texts(j@.member(key@)) == Some(v.deep_view()),
            Err(e) => e == DecodeError::Schema && as_texts(j@.member(key@)) is None,
        },
{
    match j.get(key) {
        Some(Json::Array(items)) => {
            proof {
                lemma_view_of_array(*items);
            }
            match texts_in(items) {
                Some(v) => Ok(v),
                None => Err(DecodeError::Schema),
            }
        },
        _ => Err(DecodeError::Schema),
    }
}

/// Reads the member `key` as an optional list of texts.
pub fn opt_texts_at(j: &Json, key: &str) -> (r: Result<Option<Vec<String>>, DecodeError>)
    ensures
        match r {
            Ok(v) => as_opt_texts(j@.member(key@)) == Some(v.deep_view()),
            Err(e) => e == DecodeError::Schema && as_opt_texts(j@.member(key@)) is None,
        },
{
    match j.get(key) {
        None | Some(Json::Null) => Ok(None),
        Some(Json::Array(items)) => {
            proof {
                lemma_view_of_array(*items);
            }
            match texts_in(items) {
                Some(v) => Ok(Some(v)),
                None => Err(DecodeError::Schema),
            }
        },
        _ => Err(DecodeError::Schema),
    }
}

} // verus!
