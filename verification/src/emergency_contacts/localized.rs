//! A text in several languages: French and English in their own fields,
//! other languages in a code-ordered list.

use vstd::prelude::*;

use crate::json::{JsonValue};
use crate::keyed::{
    key_insert, key_lookup, key_remove, keyed_insert, keyed_position, keyed_remove, keys_sorted,
    lemma_insert_lookup_same,
};
use crate::text::{blank, is_blank, lang_code_of, str_eq, trim, trim_str};

verus! {

/// A text per language.
#[derive(Debug)]
pub struct Localized {
    pub fr: String,
    pub en: String,
    /// Other languages by code, in code order, each code once.
    pub other: Vec<(String, String)>,
}

/// [`Localized`] with texts as sequences.
#[verifier::ext_equal]
pub struct LocalizedModel {
    pub fr: Seq<char>,
    pub en: Seq<char>,
    pub other: Seq<(Seq<char>, Seq<char>)>,
}

impl DeepView for Localized {
    type V = LocalizedModel;

    open spec fn deep_view(&self) -> LocalizedModel {
        LocalizedModel { fr: self.fr@, en: self.en@, other: self.other.deep_view() }
    }
}

/// The other languages are kept in code order.
pub open spec fn localized_wf(l: LocalizedModel) -> bool {
    keys_sorted(l.other)
}

/// The empty text.
pub open spec fn empty_localized() -> LocalizedModel {
    LocalizedModel { fr: Seq::empty(), en: Seq::empty(), other: Seq::empty() }
}

/// The text of a language code (empty when there is none).
pub open spec fn text_for_code(l: LocalizedModel, code: Seq<char>) -> Seq<char> {
    if code == "fr"@ {
        l.fr
    } else if code == "en"@ {
        l.en
    } else {
        match key_lookup(l.other, code) {
            Some(v) => v,
            None => Seq::empty(),
        }
    }
}

/// The text of a locale's language.
pub open spec fn localized_get(l: LocalizedModel, lang: Seq<char>) -> Seq<char> {
    text_for_code(l, lang_code_of(lang))
}

/// The text set for a language code: French and English are assigned; for
/// another language a blank value removes it, any other value replaces it.
pub open spec fn set_code(l: LocalizedModel, code: Seq<char>, value: Seq<char>) -> LocalizedModel {
    if code == "fr"@ {
        LocalizedModel { fr: value, en: l.en, other: l.other }
    } else if code == "en"@ {
        LocalizedModel { fr: l.fr, en: value, other: l.other }
    } else if is_blank(value) {
        LocalizedModel { fr: l.fr, en: l.en, other: key_remove(l.other, code) }
    } else {
        LocalizedModel { fr: l.fr, en: l.en, other: key_insert(l.other, code, value) }
    }
}

/// The text set for a locale's language.
pub open spec fn localized_set(l: LocalizedModel, lang: Seq<char>, value: Seq<char>) -> LocalizedModel {
    set_code(l, lang_code_of(lang), value)
}

/// Every language's text is blank.
pub open spec fn localized_is_empty(l: LocalizedModel) -> bool {
    &&& is_blank(l.fr)
    &&& is_blank(l.en)
    &&& forall|i: int| 0 <= i < l.other.len() ==> is_blank(#[trigger] l.other[i].1)
}

/// First non-blank text of the other languages, in list order (code order
/// for a well-formed text, see [`localized_wf`]).
pub open spec fn first_other(o: Seq<(Seq<char>, Seq<char>)>) -> Option<Seq<char>>
    decreases o.len(),
{
    if o.len() == 0 {
        None
    } else if !is_blank(o[0].1) {
        Some(o[0].1)
    } else {
        first_other(o.drop_first())
    }
}

/// The text shown: the guest's language, the property's, French, then
/// French and English as stored, then the first other language in list
/// order; empty when all
/// are blank.
pub open spec fn localized_pick(l: LocalizedModel, guest: Seq<char>, property: Seq<char>) -> Seq<char> {
    let g = localized_get(l, lang_code_of(guest));
    let p = localized_get(l, lang_code_of(property));
    let f = localized_get(l, "fr"@);
    if !is_blank(g) {
        g
    } else if !is_blank(p) {
        p
    } else if !is_blank(f) {
        f
    } else if !is_blank(l.fr) {
        l.fr
    } else if !is_blank(l.en) {
        l.en
    } else {
        match first_other(l.other) {
            Some(v) => v,
            None => Seq::empty(),
        }
    }
}

/// Texts of a JSON value: a string is the French text (trimmed); in an
/// object, each string member sets its language (trimmed, in member order);
/// anything else is empty.
pub open spec fn localized_from_json(v: JsonValue) -> LocalizedModel {
    match v {
        JsonValue::Str(s) => localized_set(empty_localized(), "fr"@, trim(s@)),
        JsonValue::Object(m) => set_members(m@),
        _ => empty_localized(),
    }
}

/// The string members of an object set in order.
pub open spec fn set_members(m: Seq<(String, JsonValue)>) -> LocalizedModel
    decreases m.len(),
{
    if m.len() == 0 {
        empty_localized()
    } else {
        let prev = set_members(m.drop_last());
        match m.last().1 {
            JsonValue::Str(s) => localized_set(prev, m.last().0@, trim(s@)),
            _ => prev,
        }
    }
}

impl Localized {
    /// No text in any language.
    pub fn new() -> (r: Localized)
        ensures
            r.deep_view() == empty_localized(),
            localized_wf(r.deep_view()),
    {
        let r = Localized { fr: String::new(), en: String::new(), other: Vec::new() };
        assert(r.deep_view() =~= empty_localized());
        r
    }

    /// Copy of these texts.
    pub fn duplicate(&self) -> (r: Localized)
        ensures
            r.deep_view() == self.deep_view(),
    {
        let mut other: Vec<(String, String)> = Vec::new();
        let mut i: usize = 0;
        while i < self.other.len()
            invariant
                i <= self.other@.len(),
                other.deep_view() == self.other.deep_view().subrange(0, i as int),
            decreases self.other.len() - i,
        {
            let ghost before = other.deep_view();
            other.push((self.other[i].0.clone(), self.other[i].1.clone()));
            assert(other.deep_view() =~= before.push(self.other.deep_view()[i as int]));
            i = i + 1;
            assert(other.deep_view() =~= self.other.deep_view().subrange(0, i as int));
        }
        assert(self.other.deep_view().subrange(0, i as int) =~= self.other.deep_view());
        Localized { fr: self.fr.clone(), en: self.en.clone(), other }
    }

    /// Short language code of a locale (`fr-FR` to `fr`, blank to `fr`).
    pub fn lang_code(locale: &str) -> (r: String)
        ensures
            r@ == lang_code_of(locale@),
    {
        crate::text::lang_code(locale)
    }

    /// One text in one language.
    pub fn singleton(lang: &str, value: String) -> (r: Localized)
        ensures
            r.deep_view() == localized_set(empty_localized(), lang@, value@),
            localized_wf(r.deep_view()),
    {
        let mut loc = Localized::new();
        loc.set(lang, value);
        loc
    }

    /// The text of a locale's language (empty when there is none).
    pub fn get(&self, lang: &str) -> (r: &str)
        ensures
            r@ == localized_get(self.deep_view(), lang@),
    {
        let code = Self::lang_code(lang);
        if str_eq(code.as_str(), "fr") {
            self.fr.as_str()
        } else if str_eq(code.as_str(), "en") {
            self.en.as_str()
        } else {
            match keyed_position(&self.other, code.as_str()) {
                Some(i) => self.other[i].1.as_str(),
                None => {
                    proof {
                        reveal_strlit("");
                    }
                    ""
                },
            }
        }
    }

    /// Sets the text of a locale's language (see [`set_code`]).
    pub fn set(&mut self, lang: &str, value: String)
        requires
            localized_wf(old(self).deep_view()),
        ensures
            final(self).deep_view() == localized_set(old(self).deep_view(), lang@, value@),
            localized_wf(final(self).deep_view()),
    {
        let code = Self::lang_code(lang);
        if str_eq(code.as_str(), "fr") {
            self.fr = value;
        } else if str_eq(code.as_str(), "en") {
            self.en = value;
        } else if blank(value.as_str()) {
            keyed_remove(&mut self.other, code.as_str());
        } else {
            keyed_insert(&mut self.other, code, value);
        }
    }

    /// Every language's text is blank.
    pub fn is_empty(&self) -> (r: bool)
        ensures
            r == localized_is_empty(self.deep_view()),
    {
        if !blank(self.fr.as_str()) || !blank(self.en.as_str()) {
            return false;
        }
        let ghost o = self.other.deep_view();
        let mut i: usize = 0;
        while i < self.other.len()
            invariant
                i <= self.other@.len(),
                o == self.other.deep_view(),
                is_blank(self.fr@),
                is_blank(self.en@),
                forall|k: int| 0 <= k < i ==> is_blank(#[trigger] o[k].1),
            decreases self.other.len() - i,
        {
            if !blank(self.other[i].1.as_str()) {
                assert(!is_blank(o[i as int].1));
                assert(!is_blank(self.deep_view().other[i as int].1));
                return false;
            }
            i = i + 1;
        }
        true
    }

    /// The text for a guest, French as the property's fallback language.
    pub fn pick(&self, locale: &str) -> (r: String)
        ensures
            r@ == localized_pick(self.deep_view(), locale@, "fr"@),
    {
        self.pick_with_fallback(locale, "fr")
    }

    /// The text shown (see [`localized_pick`]).
    pub fn pick_with_fallback(&self, guest_locale: &str, property_locale: &str) -> (r: String)
        ensures
            r@ == localized_pick(self.deep_view(), guest_locale@, property_locale@),
    {
        let g = self.get(Self::lang_code(guest_locale).as_str());
        if !blank(g) {
            return g.to_owned();
        }
        let p = self.get(Self::lang_code(property_locale).as_str());
        if !blank(p) {
            return p.to_owned();
        }
        let f = self.get("fr");
        if !blank(f) {
            return f.to_owned();
        }
        if !blank(self.fr.as_str()) {
            return self.fr.clone();
        }
        if !blank(self.en.as_str()) {
            return self.en.clone();
        }
        let ghost o = self.other.deep_view();
        let mut i: usize = 0;
        assert(o.subrange(0, o.len() as int) =~= o);
        while i < self.other.len()
            invariant
                i <= self.other@.len(),
                o == self.other.deep_view(),
                is_blank(self.fr@),
                is_blank(self.en@),
                is_blank(localized_get(self.deep_view(), lang_code_of(guest_locale@))),
                is_blank(localized_get(self.deep_view(), lang_code_of(property_locale@))),
                is_blank(localized_get(self.deep_view(), "fr"@)),
                first_other(o) == first_other(o.subrange(i as int, o.len() as int)),
            decreases self.other.len() - i,
        {
            let ghost rest = o.subrange(i as int, o.len() as int);
            assert(rest.drop_first() =~= o.subrange(i + 1, o.len() as int));
            assert(rest[0] == o[i as int]);
            if !blank(self.other[i].1.as_str()) {
                return self.other[i].1.clone();
            }
            i = i + 1;
        }
        String::new()
    }

    /// Texts of a JSON value (see [`localized_from_json`]).
    pub fn from_value(value: &JsonValue) -> (r: Localized)
        ensures
            r.deep_view() == localized_from_json(*value),
            localized_wf(r.deep_view()),
    {
        match value {
            JsonValue::Str(s) => Self::singleton("fr", trim_str(s.as_str()).to_owned()),
            JsonValue::Object(m) => {
                let mut loc = Localized::new();
                let mut i: usize = 0;
                while i < m.len()
                    invariant
                        i <= m@.len(),
                        localized_wf(loc.deep_view()),
                        loc.deep_view() == set_members(m@.subrange(0, i as int)),
                    decreases m.len() - i,
                {
                    assert(m@.subrange(0, i + 1).drop_last() =~= m@.subrange(0, i as int));
                    match &m[i].1 {
                        JsonValue::Str(s) => loc.set(m[i].0.as_str(), trim_str(s.as_str()).to_owned()),
                        _ => {},
                    }
                    i = i + 1;
                }
                assert(m@.subrange(0, i as int) =~= m@);
                loc
            },
            _ => Localized::new(),
        }
    }
}

/// What a read gives back of a write: after `set(lang, v)`, `get` of the
/// same language gives `v`, except that a blank text for a language other
/// than French or English removes it (and reads back empty); every language
/// with another code reads as before.
pub proof fn lemma_get_after_set(l: LocalizedModel, lang: Seq<char>, v: Seq<char>, other: Seq<char>)
    requires
        localized_wf(l),
    ensures
        localized_get(localized_set(l, lang, v), lang) == (if lang_code_of(lang) == "fr"@
            || lang_code_of(lang) == "en"@ || !is_blank(v) {
            v
        } else {
            Seq::<char>::empty()
        }),
        lang_code_of(lang) != "fr"@ && lang_code_of(lang) != "en"@ && is_blank(v) ==> key_lookup(
            localized_set(l, lang, v).other,
            lang_code_of(lang),
        ) is None,
        lang_code_of(other) != lang_code_of(lang) ==> localized_get(localized_set(l, lang, v), other)
            == localized_get(l, other),
{
    let code = lang_code_of(lang);
    let c2 = lang_code_of(other);
    crate::keyed::lemma_remove_lookup(l.other, code, c2);
    if code != "fr"@ && code != "en"@ {
        if !is_blank(v) {
            lemma_insert_lookup_same(l.other, code, v);
            if c2 != code {
                crate::keyed::lemma_insert_lookup_other(l.other, code, v, c2);
            }
        }
    }
}

} // verus!
