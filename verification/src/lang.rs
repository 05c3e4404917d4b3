//! Interface language: Russian or English.
//!
//! Strings are kept in pairs at the place of use: `tr("Диктовка", "Dictation")`.
//! The current language is held by a [`LangCell`] that the interface owns; the
//! interface redraws every frame, so a switch applies at once.
//!
//! Not to be confused with the language of recognition (`Config::lang`).
use vstd::prelude::*;
use crate::text::str_eq;

verus! {

/// Interface language.
#[derive(Clone, Copy, PartialEq, Eq, Debug, Structural)]
pub enum Lang {
    Ru,
    En,
}

/// Code of a language as stored in `config.json`.
pub open spec fn spec_lang_id(l: Lang) -> Seq<char> {
    match l {
        Lang::Ru => seq!['r', 'u'],
        Lang::En => seq!['e', 'n'],
    }
}

impl Lang {
    /// Code for `config.json`.
    pub fn id(self) -> (r: &'static str)
        ensures
            r@ == spec_lang_id(self),
    {
        proof {
            reveal_strlit("ru");
            reveal_strlit("en");
        }
        match self {
            Lang::Ru => "ru",
            Lang::En => "en",
        }
    }

    /// The name of the language in that language.
    pub fn label(self) -> (r: &'static str)
        ensures
            r@ == spec_lang_label(self),
    {
        match self {
            Lang::Ru => "Русский",
            Lang::En => "English",
        }
    }

    /// The language with the given code.
    pub fn from_id(id: &str) -> (r: Option<Lang>)
        ensures
            r == spec_from_id(id@),
    {
        proof {
            reveal_strlit("ru");
            reveal_strlit("en");
            assert("ru"@ =~= spec_lang_id(Lang::Ru));
            assert("en"@ =~= spec_lang_id(Lang::En));
        }
        if str_eq(id, "ru") {
            Some(Lang::Ru)
        } else if str_eq(id, "en") {
            Some(Lang::En)
        } else {
            None
        }
    }
}

pub open spec fn spec_lang_label(l: Lang) -> Seq<char> {
    match l {
        Lang::Ru => "Русский"@,
        Lang::En => "English"@,
    }
}

/// The language whose code is `id`, if any.
pub open spec fn spec_from_id(id: Seq<char>) -> Option<Lang> {
    if id == spec_lang_id(Lang::Ru) {
        Some(Lang::Ru)
    } else if id == spec_lang_id(Lang::En) {
        Some(Lang::En)
    } else {
        None
    }
}

/// The interface language for a Windows UI language identifier: Russian when its
/// primary language (the low 10 bits) is Russian (0x19), else English. The first
/// start opens in it: a user who does not read Russian could not even find the
/// switch in a Russian menu.
pub fn from_langid(id: u16) -> (r: Lang)
    ensures
        r == (if id % 0x400 == 0x19 { Lang::Ru } else { Lang::En }),
{
    let primary = id & 0x3FF;
    assert(id & 0x3FF == id % 0x400) by (bit_vector);
    if primary == 0x19 {
        Lang::Ru
    } else {
        Lang::En
    }
}

/// The current interface language, stored as a small code (0 Russian, 1 English).
pub struct LangCell {
    code: u8,
}

impl View for LangCell {
    type V = Lang;

    /// Any code but English's reads as Russian.
    closed spec fn view(&self) -> Lang {
        if self.code == 1 {
            Lang::En
        } else {
            Lang::Ru
        }
    }
}

impl LangCell {
    /// Russian until set otherwise.
    pub fn new() -> (r: Self)
        ensures
            r@ == Lang::Ru,
    {
        LangCell { code: 0 }
    }
}

/// Set the interface language.
pub fn set(cell: &mut LangCell, lang: Lang)
    ensures
        final(cell)@ == lang,
{
    cell.code = match lang {
        Lang::Ru => 0,
        Lang::En => 1,
    };
}

/// The interface language.
pub fn current(cell: &LangCell) -> (r: Lang)
    ensures
        r == cell@,
{
    if cell.code == 1 {
        Lang::En
    } else {
        Lang::Ru
    }
}

/// The interface string in the current language.
pub fn tr<'a>(cell: &LangCell, ru: &'a str, en: &'a str) -> (r: &'a str)
    ensures
        r == (match cell@ {
            Lang::Ru => ru,
            Lang::En => en,
        }),
{
    match current(cell) {
        Lang::Ru => ru,
        Lang::En => en,
    }
}

/// A language is read back from its code.
pub proof fn law_id_round_trip(l: Lang)
    ensures
        spec_from_id(spec_lang_id(l)) == Some(l),
{
}

} // verus!
