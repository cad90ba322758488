//! Reading the dictionary service's JSON answer into entries. Fields of the
//! wrong type count as missing, so that one odd entry never stops the rest.

use vstd::prelude::*;
use serde_json::Value;
use crate::entry::{Entry, EntryModel, Form, FormModel, Sense, SenseModel};

verus! {

#[verifier::external_type_specification]
#[verifier::external_body]
pub struct ExValue(serde_json::Value);

/// The member of an object under a key.
pub uninterp spec fn member_of(v: serde_json::Value, key: Seq<char>) -> Option<serde_json::Value>;

/// The items of an array.
pub uninterp spec fn array_of(v: serde_json::Value) -> Option<Seq<serde_json::Value>>;

/// The text of a string.
pub uninterp spec fn str_of(v: serde_json::Value) -> Option<Seq<char>>;

/// The value of a boolean.
pub uninterp spec fn bool_of(v: serde_json::Value) -> Option<bool>;

pub assume_specification<'a>[ serde_json::Value::as_array ](v: &'a serde_json::Value) -> (r: Option<&'a Vec<serde_json::Value>>)
    ensures
        match r {
            Some(a) => array_of(*v) == Some(a@),
            None => array_of(*v) is None,
        },
;

pub assume_specification<'a>[ serde_json::Value::as_str ](v: &'a serde_json::Value) -> (r: Option<&'a str>)
    ensures
        match r {
            Some(s) => str_of(*v) == Some(s@),
            None => str_of(*v) is None,
        },
;

pub assume_specification[ serde_json::Value::as_bool ](v: &serde_json::Value) -> (r: Option<bool>)
    ensures
        r == bool_of(*v),
;

/// Relies on serde_json::Value::get with a string key: the member of an
/// object under that key, `None` where the key is missing or the value is no
/// object.
#[verifier::external_body]
fn member<'a>(v: &'a Value, key: &str) -> (r: Option<&'a Value>)
    ensures
        match r {
            Some(m) => member_of(*v, key@) == Some(*m),
            None => member_of(*v, key@) is None,
        },
{
    v.get(key)
}

/// The answer had no `data` array, so it holds no entries to show.
#[derive(Clone, Copy, Debug, PartialEq, Eq, Structural)]
pub enum SchemaError {
    MissingData,
}

/// The items of the member under `key`, where it is an array.
pub open spec fn array_member_of(v: Value, key: Seq<char>) -> Option<Seq<Value>> {
    match member_of(v, key) {
        Some(m) => array_of(m),
        None => None,
    }
}

/// The text of the member under `key`, where it is a string.
pub open spec fn str_member_of(v: Value, key: Seq<char>) -> Option<Seq<char>> {
    match member_of(v, key) {
        Some(m) => str_of(m),
        None => None,
    }
}

/// The strings among `items`, in order.
pub open spec fn strings_in(items: Seq<Value>) -> Seq<Seq<char>>
    decreases items.len(),
{
    if items.len() == 0 {
        Seq::empty()
    } else {
        let rest = strings_in(items.drop_last());
        match str_of(items.last()) {
            Some(s) => rest.push(s),
            None => rest,
        }
    }
}

/// The strings of the array under `key`; none where there is no such array.
pub open spec fn strings_member_of(v: Value, key: Seq<char>) -> Seq<Seq<char>> {
    match array_member_of(v, key) {
        Some(items) => strings_in(items),
        None => Seq::empty(),
    }
}

/// The form that a `japanese` item describes.
pub open spec fn form_model(v: Value) -> FormModel {
    FormModel { word: str_member_of(v, "word"@), reading: str_member_of(v, "reading"@) }
}

/// The sense that a `senses` item describes.
pub open spec fn sense_model(v: Value) -> SenseModel {
    SenseModel {
        glosses: strings_member_of(v, "english_definitions"@),
        parts_of_speech: strings_member_of(v, "parts_of_speech"@),
        tags: strings_member_of(v, "tags"@),
    }
}

/// The entry that a `data` item describes; a missing or mistyped field
/// reads as absent.
pub open spec fn entry_model(v: Value) -> EntryModel {
    EntryModel {
        forms: match array_member_of(v, "japanese"@) {
            Some(items) => items.map_values(|x: Value| form_model(x)),
            None => Seq::empty(),
        },
        is_common: match member_of(v, "is_common"@) {
            Some(m) => bool_of(m) == Some(true),
            None => false,
        },
        jlpt: strings_member_of(v, "jlpt"@),
        senses: match array_member_of(v, "senses"@) {
            Some(items) => Some(items.map_values(|x: Value| sense_model(x))),
            None => None,
        },
    }
}

/// The member under `key` where it is an array.
fn array_member<'a>(v: &'a Value, key: &str) -> (r: Option<&'a Vec<Value>>)
    ensures
        match r {
            Some(a) => array_member_of(*v, key@) == Some(a@),
            None => array_member_of(*v, key@) is None,
        },
{
    match member(v, key) {
        Some(m) => m.as_array(),
        None => None,
    }
}

/// The member under `key` where it is a string.
fn string_member(v: &Value, key: &str) -> (r: Option<String>)
    ensures
        r.deep_view() == str_member_of(*v, key@),
{
    match member(v, key) {
        Some(m) => match m.as_str() {
            Some(s) => Some(s.to_owned()),
            None => None,
        },
        None => None,
    }
}

/// The strings of the array under `key`, in order, leaving out anything else.
fn strings_member(v: &Value, key: &str) -> (r: Vec<String>)
    ensures
        r.deep_view() == strings_member_of(*v, key@),
{
    let mut out: Vec<String> = Vec::new();
    match array_member(v, key) {
        Some(items) => {
            let mut i: usize = 0;
            while i < items.len()
                invariant
                    i <= items.len(),
                    out.deep_view() == strings_in(items@.take(i as int)),
                decreases items.len() - i,
            {
                proof {
                    assert(items@.take(i + 1).drop_last() =~= items@.take(i as int));
                    assert(items@.take(i + 1).last() == items@[i as int]);
                }
                let ghost before = out.deep_view();
                match items[i].as_str() {
                    Some(s) => {
                        let t = s.to_owned();
                        out.push(t);
                        proof {
                            assert(out.deep_view() =~= before.push(t@));
                        }
                    },
                    None => {},
                }
                i = i + 1;
            }
            proof {
                assert(items@.take(i as int) =~= items@);
            }
        },
        None => {},
    }
    out
}

/// A form out of a `japanese` item.
pub fn form_from_json(v: &Value) -> (r: Form)
    ensures
        r@ == form_model(*v),
{
    Form { word: string_member(v, "word"), reading: string_member(v, "reading") }
}

/// A sense out of a `senses` item.
pub fn sense_from_json(v: &Value) -> (r: Sense)
    ensures
        r@ == sense_model(*v),
{
    Sense {
        glosses: strings_member(v, "english_definitions"),
        parts_of_speech: strings_member(v, "parts_of_speech"),
        tags: strings_member(v, "tags"),
    }
}

/// An entry out of a `data` item.
pub fn entry_from_json(v: &Value) -> (r: Entry)
    ensures
        r@ == entry_model(*v),
{
    let mut forms: Vec<Form> = Vec::new();
    match array_member(v, "japanese") {
        Some(items) => {
            let mut i: usize = 0;
            while i < items.len()
                invariant
                    i <= items.len(),
                    forms@.len() == i,
                    forall|j: int| 0 <= j < i ==> (#[trigger] forms@[j])@ == form_model(items@[j]),
                decreases items.len() - i,
            {
                forms.push(form_from_json(&items[i]));
                i = i + 1;
            }
            proof {
                assert(crate::entry::forms_view(forms@) =~= items@.map_values(|x: Value| form_model(x)));
            }
        },
        None => {},
    }
    let is_common = match member(v, "is_common") {
        Some(m) => match m.as_bool() {
            Some(b) => b,
            None => false,
        },
        None => false,
    };
    let senses = match array_member(v, "senses") {
        Some(items) => {
            let mut out: Vec<Sense> = Vec::new();
            let mut i: usize = 0;
            while i < items.len()
                invariant
                    i <= items.len(),
                    out@.len() == i,
                    forall|j: int| 0 <= j < i ==> (#[trigger] out@[j])@ == sense_model(items@[j]),
                decreases items.len() - i,
            {
                out.push(sense_from_json(&items[i]));
                i = i + 1;
            }
            proof {
                assert(crate::entry::senses_view(out@) =~= items@.map_values(|x: Value| sense_model(x)));
            }
            Some(out)
        },
        None => None,
    };
    let jlpt = strings_member(v, "jlpt");
    let r = Entry { forms, is_common, jlpt, senses };
    proof {
        assert(crate::entry::forms_view(r.forms@) == entry_model(*v).forms);
        assert(r@.senses == entry_model(*v).senses);
    }
    r
}

/// The entries of a whole answer, one per item of its `data` array, in
/// order; `MissingData` where the answer has no `data` member or it is no
/// array.
pub fn entries_from_response(body: &Value) -> (r: Result<Vec<Entry>, SchemaError>)
    ensures
        r is Ok <==> array_member_of(*body, "data"@) is Some,
        r is Err ==> r == Err::<Vec<Entry>, SchemaError>(SchemaError::MissingData),
        r matches Ok(es) ==> ({
            let items = array_member_of(*body, "data"@).unwrap();
            &&& es@.len() == items.len()
            &&& forall|i: int| 0 <= i < items.len() ==> (#[trigger] es@[i])@ == entry_model(items[i])
        }),
{
    match array_member(body, "data") {
        Some(items) => {
            let mut out: Vec<Entry> = Vec::new();
            let mut i: usize = 0;
            while i < items.len()
                invariant
                    i <= items.len(),
                    out@.len() == i,
                    forall|j: int| 0 <= j < i ==> (#[trigger] out@[j])@ == entry_model(items@[j]),
                decreases items.len() - i,
            {
                out.push(entry_from_json(&items[i]));
                i = i + 1;
            }
            Ok(out)
        },
        None => Err(SchemaError::MissingData),
    }
}

} // verus!
