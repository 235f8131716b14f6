//! The text in which a list of texts is kept in one column of the store:
//! a JSON array of strings.

use vstd::prelude::*;
use crate::error::{Error, ErrorView};
use crate::text::{opt_text, texts};

verus! {

/// The JSON text that `serde_json` writes for the list of strings
/// `items`; `None` where it writes none.
pub uninterp spec fn json_of_texts(items: Seq<Seq<char>>) -> Option<Seq<char>>;

/// The list of strings that `serde_json` reads from the JSON text
/// `text`; `None` where it reads none.
pub uninterp spec fn texts_of_json(text: Seq<char>) -> Option<Seq<Seq<char>>>;

/// The texts of an optional list of strings.
pub open spec fn opt_texts(items: Option<Vec<String>>) -> Option<Seq<Seq<char>>> {
    match items {
        Some(v) => Some(texts(v@)),
        None => None,
    }
}

/// `to_string` of `serde_json` on a list of strings. The contract names
/// the text and says nothing more of it.
#[verifier::external_body]
fn to_json(items: &Vec<String>) -> (r: Option<String>)
    ensures
        opt_text(r) == json_of_texts(texts(items@)),
{
    serde_json::to_string(items).ok()
}

/// `from_str` of `serde_json`, asked for a list of strings. The contract
/// names the list and says nothing more of it.
#[verifier::external_body]
fn from_json(text: &str) -> (r: Option<Vec<String>>)
    ensures
        opt_texts(r) == texts_of_json(text@),
{
    serde_json::from_str::<Vec<String>>(text).ok()
}

/// The text that was written for a list, or the failure to write one.
pub fn written(encoded: Option<String>) -> (r: Result<String, Error>)
    ensures
        match encoded {
            Some(t) => r is Ok && r->Ok_0@ == t@,
            None => r is Err && r->Err_0@ == ErrorView::ListNotEncoded,
        },
{
    match encoded {
        Some(t) => Ok(t),
        None => Err(Error::ListNotEncoded),
    }
}

/// The list that was read from a column, or the empty list where none
/// could be read.
pub fn list_or_empty(decoded: Option<Vec<String>>) -> (r: Vec<String>)
    ensures
        texts(r@) == match decoded {
            Some(v) => texts(v@),
            None => Seq::empty(),
        },
{
    match decoded {
        Some(v) => v,
        None => {
            let none: Vec<String> = Vec::new();
            assert(texts(none@) =~= Seq::<Seq<char>>::empty());
            none
        },
    }
}

/// The text that keeps the list `items` in a column of the store.
pub fn encode_list(items: &Vec<String>) -> (r: Result<String, Error>)
    ensures
        match json_of_texts(texts(items@)) {
            Some(t) => r is Ok && r->Ok_0@ == t,
            None => r is Err && r->Err_0@ == ErrorView::ListNotEncoded,
        },
{
    written(to_json(items))
}

/// The list that the text `text` of a column keeps; the empty list where
/// the text keeps none.
pub fn decode_list(text: &str) -> (r: Vec<String>)
    ensures
        texts(r@) == match texts_of_json(text@) {
            Some(l) => l,
            None => Seq::empty(),
        },
{
    list_or_empty(from_json(text))
}

} // verus!
