//! The dictionary entry as the renderer reads it: plain values, each field
//! optional where the service may leave it out.

use vstd::prelude::*;

verus! {

/// One way to write an entry: a surface word and its kana reading.
#[derive(Clone, Debug)]
pub struct Form {
    pub word: Option<String>,
    pub reading: Option<String>,
}

/// One meaning of an entry.
#[derive(Clone, Debug)]
pub struct Sense {
    pub glosses: Vec<String>,
    pub parts_of_speech: Vec<String>,
    pub tags: Vec<String>,
}

/// One matched word as the dictionary service describes it. `senses` is
/// `None` where the service gave no list of senses at all.
#[derive(Clone, Debug)]
pub struct Entry {
    pub forms: Vec<Form>,
    pub is_common: bool,
    pub jlpt: Vec<String>,
    pub senses: Option<Vec<Sense>>,
}

pub struct FormModel {
    pub word: Option<Seq<char>>,
    pub reading: Option<Seq<char>>,
}

pub struct SenseModel {
    pub glosses: Seq<Seq<char>>,
    pub parts_of_speech: Seq<Seq<char>>,
    pub tags: Seq<Seq<char>>,
}

pub struct EntryModel {
    pub forms: Seq<FormModel>,
    pub is_common: bool,
    pub jlpt: Seq<Seq<char>>,
    pub senses: Option<Seq<SenseModel>>,
}

impl View for Form {
    type V = FormModel;

    open spec fn view(&self) -> FormModel {
        FormModel { word: self.word.deep_view(), reading: self.reading.deep_view() }
    }
}

impl View for Sense {
    type V = SenseModel;

    open spec fn view(&self) -> SenseModel {
        SenseModel {
            glosses: self.glosses.deep_view(),
            parts_of_speech: self.parts_of_speech.deep_view(),
            tags: self.tags.deep_view(),
        }
    }
}

pub open spec fn senses_view(v: Seq<Sense>) -> Seq<SenseModel> {
    v.map_values(|s: Sense| s@)
}

pub open spec fn forms_view(v: Seq<Form>) -> Seq<FormModel> {
    v.map_values(|f: Form| f@)
}

impl View for Entry {
    type V = EntryModel;

    open spec fn view(&self) -> EntryModel {
        EntryModel {
            forms: forms_view(self.forms@),
            is_common: self.is_common,
            jlpt: self.jlpt.deep_view(),
            senses: match self.senses {
                Some(v) => Some(senses_view(v@)),
                None => None,
            },
        }
    }
}

} // verus!
