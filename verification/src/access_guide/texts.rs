//! Per-language copy of the access guide (titles, notes, instructions), and
//! the extraction of copy still embedded in a pre-split configuration document.

use vstd::prelude::*;

use crate::json::{JsonValue, get_of, get_path, member, parse_json, path_of, str_of};
use crate::text::{blank, is_blank, nonempty_of, nonempty_owned, opt_blank, opt_empty, trim, trim_str, trimmed_owned, str_eq};
pub use crate::text::lang_code;
use crate::access_guide::config::clone_opt;
use crate::keyed::{key_insert, keyed_insert, keys_sorted};
use crate::text::lang_code_of;

verus! {

/// Title/detail of one arrival step, matched to the shared step by `id`.
#[derive(Debug, Clone, PartialEq, Eq)]
pub struct StepText {
    pub id: String,
    pub title: String,
    pub detail: Option<String>,
}

#[verifier::ext_equal]
pub struct StepTextModel {
    pub id: Seq<char>,
    pub title: Seq<char>,
    pub detail: Option<Seq<char>>,
}

impl DeepView for StepText {
    type V = StepTextModel;

    open spec fn deep_view(&self) -> StepTextModel {
        StepTextModel { id: self.id@, title: self.title@, detail: self.detail.deep_view() }
    }
}

pub open spec fn step_text_empty(t: StepTextModel) -> bool {
    is_blank(t.title) && opt_blank(t.detail)
}

impl StepText {
    /// Copy of this step text.
    pub fn duplicate(&self) -> (r: StepText)
        ensures
            r.deep_view() == self.deep_view(),
    {
        StepText { id: self.id.clone(), title: self.title.clone(), detail: clone_opt(&self.detail) }
    }

    /// True when title and detail are blank.
    pub fn is_empty(&self) -> (r: bool)
        ensures
            r == step_text_empty(self.deep_view()),
    {
        blank(self.title.as_str()) && opt_empty(&self.detail)
    }
}

/// Language-specific titles and free-text fields.
#[derive(Debug, Clone, PartialEq, Eq)]
pub struct ModuleTexts {
    pub method_instructions: Option<String>,
    pub building_note: Option<String>,
    pub parking_info: String,
    pub global_note: String,
    pub steps: Vec<StepText>,
}

#[verifier::ext_equal]
pub struct TextsModel {
    pub method_instructions: Option<Seq<char>>,
    pub building_note: Option<Seq<char>>,
    pub parking_info: Seq<char>,
    pub global_note: Seq<char>,
    pub steps: Seq<StepTextModel>,
}

impl DeepView for ModuleTexts {
    type V = TextsModel;

    open spec fn deep_view(&self) -> TextsModel {
        TextsModel {
            method_instructions: self.method_instructions.deep_view(),
            building_note: self.building_note.deep_view(),
            parking_info: self.parking_info@,
            global_note: self.global_note@,
            steps: self.steps.deep_view(),
        }
    }
}

/// Texts with nothing in them.
pub open spec fn empty_texts() -> TextsModel {
    TextsModel {
        method_instructions: None,
        building_note: None,
        parking_info: Seq::empty(),
        global_note: Seq::empty(),
        steps: Seq::empty(),
    }
}

impl Default for ModuleTexts {
    fn default() -> (r: Self)
        ensures
            r.deep_view() == empty_texts(),
    {
        ModuleTexts {
            method_instructions: None,
            building_note: None,
            parking_info: String::new(),
            global_note: String::new(),
            steps: Vec::new(),
        }
    }
}

/// No guest-visible copy in any field or step.
pub open spec fn texts_empty(t: TextsModel) -> bool {
    &&& opt_blank(t.method_instructions)
    &&& opt_blank(t.building_note)
    &&& is_blank(t.parking_info)
    &&& is_blank(t.global_note)
    &&& forall|i: int| 0 <= i < t.steps.len() ==> #[trigger] step_text_empty(t.steps[i])
}

/// Index of the first step text with the given id.
pub open spec fn step_index(steps: Seq<StepTextModel>, id: Seq<char>) -> Option<int>
    decreases steps.len(),
{
    if steps.len() == 0 {
        None
    } else if steps[0].id == id {
        Some(0)
    } else {
        match step_index(steps.drop_first(), id) {
            Some(i) => Some(i + 1),
            None => None,
        }
    }
}

impl ModuleTexts {
    /// Copy of these texts.
    pub fn duplicate(&self) -> (r: ModuleTexts)
        ensures
            r.deep_view() == self.deep_view(),
    {
        let mut steps: Vec<StepText> = Vec::new();
        let mut i: usize = 0;
        while i < self.steps.len()
            invariant
                i <= self.steps@.len(),
                steps.deep_view() == self.steps.deep_view().subrange(0, i as int),
            decreases self.steps.len() - i,
        {
            let ghost before = steps.deep_view();
            let x = self.steps[i].duplicate();
            steps.push(x);
            assert(steps.deep_view() =~= before.push(self.steps.deep_view()[i as int]));
            assert(self.steps.deep_view().subrange(0, i + 1) =~= before.push(self.steps.deep_view()[i as int]));
            i = i + 1;
        }
        assert(self.steps.deep_view().subrange(0, self.steps@.len() as int) =~= self.steps.deep_view());
        ModuleTexts {
            method_instructions: clone_opt(&self.method_instructions),
            building_note: clone_opt(&self.building_note),
            parking_info: self.parking_info.clone(),
            global_note: self.global_note.clone(),
            steps,
        }
    }

    /// True when no field or step holds guest-visible copy.
    pub fn is_empty(&self) -> (r: bool)
        ensures
            r == texts_empty(self.deep_view()),
    {
        if !(opt_empty(&self.method_instructions) && opt_empty(&self.building_note) && blank(
            self.parking_info.as_str(),
        ) && blank(self.global_note.as_str())) {
            return false;
        }
        let mut i: usize = 0;
        while i < self.steps.len()
            invariant
                i <= self.steps@.len(),
                forall|k: int| 0 <= k < i ==> #[trigger] step_text_empty(self.steps.deep_view()[k]),
            decreases self.steps.len() - i,
        {
            if !self.steps[i].is_empty() {
                assert(!step_text_empty(self.steps.deep_view()[i as int]));
                assert(self.deep_view().steps.len() == self.steps@.len());
                assert(!texts_empty(self.deep_view()));
                return false;
            }
            i = i + 1;
        }
        true
    }

    /// The first step text whose id is `id`.
    pub fn step_by_id(&self, id: &str) -> (r: Option<&StepText>)
        ensures
            match r {
                Some(t) => step_index(self.steps.deep_view(), id@) matches Some(i) && 0 <= i
                    < self.steps@.len() && self.steps@[i] == *t,
                None => step_index(self.steps.deep_view(), id@) is None,
            },
    {
        let mut i: usize = 0;
        let ghost all = self.steps.deep_view();
        assert(all.subrange(0, all.len() as int) =~= all);
        while i < self.steps.len()
            invariant
                i <= self.steps@.len(),
                all == self.steps.deep_view(),
                step_index(all, id@) == match step_index(all.subrange(i as int, all.len() as int), id@) {
                    Some(k) => Some(k + i),
                    None => None,
                },
            decreases self.steps.len() - i,
        {
            let ghost rest = all.subrange(i as int, all.len() as int);
            assert(rest.drop_first() =~= all.subrange(i + 1, all.len() as int));
            if str_eq(self.steps[i].id.as_str(), id) {
                return Some(&self.steps[i]);
            }
            i = i + 1;
        }
        None
    }
}

/// Storage key of the texts of a locale (`texts/` and its language code).
pub open spec fn texts_key_of(lang: Seq<char>) -> Seq<char> {
    "texts/"@ + crate::text::lang_code_of(lang)
}

/// Storage key of the texts of a locale.
pub fn texts_key(lang: &str) -> (r: String)
    ensures
        r@ == texts_key_of(lang@),
{
    let mut key = "texts/".to_owned();
    let code = lang_code(lang);
    key.append(code.as_str());
    key
}

// ── Extraction of embedded copy ─────────────────────────────────────────────

/// A plain string gives `(s, "")`, an object `{fr, en}` gives both sides,
/// anything else gives two empty texts; every side is trimmed.
pub open spec fn localized_pair_of(value: Option<JsonValue>) -> (Seq<char>, Seq<char>) {
    match value {
        Some(JsonValue::Str(s)) => (trim(s@), Seq::empty()),
        Some(JsonValue::Object(m)) => (
            trim(side_of(member(m@, "fr"@))),
            trim(side_of(member(m@, "en"@))),
        ),
        _ => (Seq::empty(), Seq::empty()),
    }
}

/// A member read as text: its string, or empty.
pub open spec fn side_of(v: Option<JsonValue>) -> Seq<char> {
    match str_of(v) {
        Some(s) => s,
        None => Seq::empty(),
    }
}

fn side(v: &JsonValue, key: &str) -> (r: String)
    ensures
        r@ == trim(side_of(get_of(*v, key@))),
{
    match v.get(key) {
        Some(x) => match x.as_str() {
            Some(s) => trimmed_owned(s),
            None => String::new(),
        },
        None => String::new(),
    }
}

/// Plain string → `(s, "")`; object `{fr, en}` → both sides; trimmed.
pub fn localized_pair(value: Option<&JsonValue>) -> (r: (String, String))
    ensures
        (r.0@, r.1@) == localized_pair_of(match value {
            Some(v) => Some(*v),
            None => None,
        }),
{
    match value {
        Some(JsonValue::Str(s)) => (trimmed_owned(s.as_str()), String::new()),
        Some(v) => match v {
            JsonValue::Object(_) => (side(v, "fr"), side(v, "en")),
            _ => (String::new(), String::new()),
        },
        None => (String::new(), String::new()),
    }
}

/// Optional field filled from each non-empty side.
pub open spec fn assign_opt_of(pair: Seq<char>, current: Option<Seq<char>>) -> Option<Seq<char>> {
    if pair.len() > 0 {
        Some(pair)
    } else {
        current
    }
}

/// Text field filled from a non-empty side only while it is blank.
pub open spec fn assign_text_of(pair: Seq<char>, current: Seq<char>) -> Seq<char> {
    if is_blank(current) && pair.len() > 0 {
        pair
    } else {
        current
    }
}

fn assign_localized_opt(value: &JsonValue, fr: &mut Option<String>, en: &mut Option<String>)
    ensures
        final(fr).deep_view() == assign_opt_of(localized_pair_of(Some(*value)).0, old(fr).deep_view()),
        final(en).deep_view() == assign_opt_of(localized_pair_of(Some(*value)).1, old(en).deep_view()),
{
    let (fr_s, en_s) = localized_pair(Some(value));
    if fr_s.unicode_len() > 0 {
        *fr = Some(fr_s);
    }
    if en_s.unicode_len() > 0 {
        *en = Some(en_s);
    }
}

fn assign_localized_string(value: &JsonValue, fr: &mut String, en: &mut String)
    ensures
        final(fr)@ == assign_text_of(localized_pair_of(Some(*value)).0, old(fr)@),
        final(en)@ == assign_text_of(localized_pair_of(Some(*value)).1, old(en)@),
{
    let (fr_s, en_s) = localized_pair(Some(value));
    if blank(fr.as_str()) && fr_s.unicode_len() > 0 {
        *fr = fr_s;
    }
    if blank(en.as_str()) && en_s.unicode_len() > 0 {
        *en = en_s;
    }
}

/// `v` when it is a non-empty array.
pub open spec fn nonempty_array(v: Option<JsonValue>) -> Option<Seq<JsonValue>> {
    match v {
        Some(JsonValue::Array(a)) if a@.len() > 0 => Some(a@),
        _ => None,
    }
}

/// Embedded step documents: `arrival.steps` when non-empty, else `steps` when
/// non-empty, else the array that `steps_json` holds (when its trimmed text is
/// one), else none. `parsed` is what the trimmed `steps_json` text parses to.
pub open spec fn step_values_of(root: JsonValue, parsed: Option<JsonValue>) -> Seq<JsonValue> {
    match nonempty_array(path_of(root, "arrival"@, "steps"@)) {
        Some(a) => a,
        None => match nonempty_array(get_of(root, "steps"@)) {
            Some(a) => a,
            None => match parsed {
                Some(JsonValue::Array(a)) => a@,
                _ => Seq::empty(),
            },
        },
    }
}

/// What the trimmed `steps_json` string of the root parses to.
pub open spec fn steps_json_doc_of(root: JsonValue) -> Option<JsonValue> {
    match str_of(get_of(root, "steps_json"@)) {
        Some(t) if !is_blank(t) => crate::json::json_parse(trim(t)),
        _ => None,
    }
}

fn nonempty_array_ref(v: Option<&JsonValue>) -> (r: Option<&Vec<JsonValue>>)
    ensures
        match r {
            Some(a) => nonempty_array(match v {
                Some(x) => Some(*x),
                None => None,
            }) == Some(a@),
            None => nonempty_array(match v {
                Some(x) => Some(*x),
                None => None,
            }) is None,
        },
{
    match v {
        Some(JsonValue::Array(a)) => if a.len() > 0 {
            Some(a)
        } else {
            None
        },
        _ => None,
    }
}

fn steps_json_doc(root: &JsonValue) -> (r: Option<JsonValue>)
    ensures
        r == steps_json_doc_of(*root),
{
    match root.get("steps_json") {
        Some(v) => match v.as_str() {
            Some(t) => {
                let trimmed = trim_str(t);
                if trimmed.unicode_len() == 0 {
                    None
                } else {
                    parse_json(trimmed)
                }
            },
            None => None,
        },
        None => None,
    }
}

/// Per-language step texts gathered from embedded step documents, in order:
/// a step needs a non-blank string `id`; a side is kept when its title or
/// detail is non-empty.
pub open spec fn step_texts_of(steps: Seq<JsonValue>) -> (Seq<StepTextModel>, Seq<StepTextModel>)
    decreases steps.len(),
{
    if steps.len() == 0 {
        (Seq::empty(), Seq::empty())
    } else {
        let rest = step_texts_of(steps.drop_last());
        let step = steps.last();
        match str_of(get_of(step, "id"@)) {
            Some(raw_id) if trim(raw_id).len() > 0 => {
                let id = trim(raw_id);
                let title = localized_pair_of(get_of(step, "title"@));
                let detail = localized_pair_of(get_of(step, "detail"@));
                let d_fr = nonempty_of(detail.0);
                let d_en = nonempty_of(detail.1);
                (
                    if title.0.len() > 0 || d_fr is Some {
                        rest.0.push(StepTextModel { id, title: title.0, detail: d_fr })
                    } else {
                        rest.0
                    },
                    if title.1.len() > 0 || d_en is Some {
                        rest.1.push(StepTextModel { id, title: title.1, detail: d_en })
                    } else {
                        rest.1
                    },
                )
            },
            _ => rest,
        }
    }
}

/// French and English copy still embedded in a pre-split configuration
/// document: plain strings land in French only, `{fr, en}` objects split.
pub open spec fn embedded_texts_of(root: JsonValue) -> (TextsModel, TextsModel) {
    let instr = path_of(root, "method"@, "instructions"@);
    let note = path_of(root, "building_access"@, "note"@);
    let info = match path_of(root, "parking"@, "info"@) {
        Some(v) => Some(v),
        None => get_of(root, "parking_info"@),
    };
    let global = match path_of(root, "arrival"@, "global_note"@) {
        Some(v) => Some(v),
        None => get_of(root, "global_note"@),
    };
    let steps = step_texts_of(step_values_of(root, steps_json_doc_of(root)));
    let instr_p = match instr {
        Some(v) => localized_pair_of(Some(v)),
        None => (Seq::empty(), Seq::empty()),
    };
    let note_p = match note {
        Some(v) => localized_pair_of(Some(v)),
        None => (Seq::empty(), Seq::empty()),
    };
    let info_p = match info {
        Some(v) => localized_pair_of(Some(v)),
        None => (Seq::empty(), Seq::empty()),
    };
    let global_p = match global {
        Some(v) => localized_pair_of(Some(v)),
        None => (Seq::empty(), Seq::empty()),
    };
    (
        TextsModel {
            method_instructions: assign_opt_of(instr_p.0, None),
            building_note: assign_opt_of(note_p.0, None),
            parking_info: assign_text_of(info_p.0, Seq::empty()),
            global_note: assign_text_of(global_p.0, Seq::empty()),
            steps: steps.0,
        },
        TextsModel {
            method_instructions: assign_opt_of(instr_p.1, None),
            building_note: assign_opt_of(note_p.1, None),
            parking_info: assign_text_of(info_p.1, Seq::empty()),
            global_note: assign_text_of(global_p.1, Seq::empty()),
            steps: steps.1,
        },
    )
}

proof fn lemma_empty_blank()
    ensures
        is_blank(Seq::<char>::empty()),
{
    assert(crate::text::trim_start(Seq::<char>::empty()) =~= Seq::<char>::empty());
    assert(crate::text::trim_end(Seq::<char>::empty()) =~= Seq::<char>::empty());
}

/// Pull language copy still embedded in a legacy configuration document.
/// Returns `(fr, en)`.
pub fn extract_embedded_texts(root: &JsonValue) -> (r: (ModuleTexts, ModuleTexts))
    ensures
        (r.0.deep_view(), r.1.deep_view()) == embedded_texts_of(*root),
{
    proof {
        lemma_empty_blank();
    }
    let mut fr = ModuleTexts::default();
    let mut en = ModuleTexts::default();
    match get_path(root, "method", "instructions") {
        Some(v) => assign_localized_opt(v, &mut fr.method_instructions, &mut en.method_instructions),
        None => {},
    }
    match get_path(root, "building_access", "note") {
        Some(v) => assign_localized_opt(v, &mut fr.building_note, &mut en.building_note),
        None => {},
    }
    let info = match get_path(root, "parking", "info") {
        Some(v) => Some(v),
        None => root.get("parking_info"),
    };
    match info {
        Some(v) => assign_localized_string(v, &mut fr.parking_info, &mut en.parking_info),
        None => {},
    }
    let global = match get_path(root, "arrival", "global_note") {
        Some(v) => Some(v),
        None => root.get("global_note"),
    };
    match global {
        Some(v) => assign_localized_string(v, &mut fr.global_note, &mut en.global_note),
        None => {},
    }
    let parsed = steps_json_doc(root);
    let empty: Vec<JsonValue> = Vec::new();
    let steps: &Vec<JsonValue> = match nonempty_array_ref(get_path(root, "arrival", "steps")) {
        Some(a) => a,
        None => match nonempty_array_ref(root.get("steps")) {
            Some(a) => a,
            None => match &parsed {
                Some(JsonValue::Array(a)) => a,
                _ => &empty,
            },
        },
    };
    assert(steps@ == step_values_of(*root, steps_json_doc_of(*root)));
    let ghost e = embedded_texts_of(*root);
    let mut i: usize = 0;
    assert(fr.steps.deep_view() =~= Seq::<StepTextModel>::empty());
    assert(en.steps.deep_view() =~= Seq::<StepTextModel>::empty());
    while i < steps.len()
        invariant
            i <= steps@.len(),
            e == embedded_texts_of(*root),
            steps@ == step_values_of(*root, steps_json_doc_of(*root)),
            fr.method_instructions.deep_view() == e.0.method_instructions,
            fr.building_note.deep_view() == e.0.building_note,
            fr.parking_info@ == e.0.parking_info,
            fr.global_note@ == e.0.global_note,
            en.method_instructions.deep_view() == e.1.method_instructions,
            en.building_note.deep_view() == e.1.building_note,
            en.parking_info@ == e.1.parking_info,
            en.global_note@ == e.1.global_note,
            (fr.steps.deep_view(), en.steps.deep_view()) == step_texts_of(
                steps@.subrange(0, i as int),
            ),
        decreases steps.len() - i,
    {
        let ghost pre = steps@.subrange(0, i + 1);
        assert(pre.drop_last() =~= steps@.subrange(0, i as int));
        let step = &steps[i];
        let id_opt = crate::json::get_str(step, "id");
        match id_opt {
            Some(raw_id) => {
                let id = trim_str(raw_id);
                if id.unicode_len() > 0 {
                    let (title_fr, title_en) = localized_pair(step.get("title"));
                    let (detail_fr_raw, detail_en_raw) = localized_pair(step.get("detail"));
                    let detail_fr = nonempty_owned(detail_fr_raw.as_str());
                    let detail_en = nonempty_owned(detail_en_raw.as_str());
                    if title_fr.unicode_len() > 0 || detail_fr.is_some() {
                        fr.steps.push(StepText { id: id.to_owned(), title: title_fr, detail: detail_fr });
                    }
                    if title_en.unicode_len() > 0 || detail_en.is_some() {
                        en.steps.push(StepText { id: id.to_owned(), title: title_en, detail: detail_en });
                    }
                }
            },
            None => {},
        }
        i = i + 1;
    }
    assert(steps@.subrange(0, steps@.len() as int) =~= steps@);
    (fr, en)
}

// ── Which stored texts a guest reads ────────────────────────────────────────

/// The language of a storage key, when it is a texts key with a language.
pub open spec fn key_lang(key: Seq<char>) -> Option<Seq<char>> {
    if key.len() > 6 && key.subrange(0, 6) == "texts/"@ {
        Some(key.subrange(6, key.len() as int))
    } else {
        None
    }
}

/// The languages stored under texts keys, sorted, each once (values unused).
pub open spec fn stored_langs(keys: Seq<Seq<char>>) -> Seq<(Seq<char>, bool)>
    decreases keys.len(),
{
    if keys.len() == 0 {
        Seq::empty()
    } else {
        match key_lang(keys.last()) {
            Some(l) => key_insert(stored_langs(keys.drop_last()), l, true),
            None => stored_langs(keys.drop_last()),
        }
    }
}

/// A list with later repeats removed.
pub open spec fn first_occurrences(s: Seq<Seq<char>>) -> Seq<Seq<char>>
    decreases s.len(),
{
    if s.len() == 0 {
        Seq::empty()
    } else {
        let d = first_occurrences(s.drop_last());
        if d.contains(s.last()) {
            d
        } else {
            d.push(s.last())
        }
    }
}

/// The languages a guest's texts are tried in: the guest's, the property's,
/// French, then every other stored language in order, each once.
pub open spec fn guest_text_langs(guest: Seq<char>, property: Seq<char>, keys: Seq<Seq<char>>) -> Seq<Seq<char>> {
    first_occurrences(
        seq![lang_code_of(guest), lang_code_of(property), "fr"@] + stored_langs(keys).map_values(
            |e: (Seq<char>, bool)| e.0,
        ),
    )
}

fn key_lang_exec(key: &str) -> (r: Option<String>)
    ensures
        r.deep_view() == key_lang(key@),
{
    let n = key.unicode_len();
    if n <= 6 {
        return None;
    }
    let head = key.substring_char(0, 6);
    if !crate::text::str_eq(head, "texts/") {
        return None;
    }
    Some(key.substring_char(6, n).to_owned())
}

fn push_first(out: &mut Vec<String>, lang: String)
    ensures
        !old(out).deep_view().contains(lang@) ==> final(out).deep_view() == old(out).deep_view().push(lang@),
        old(out).deep_view().contains(lang@) ==> final(out).deep_view() == old(out).deep_view(),
{
    let ghost o = out.deep_view();
    let mut k: usize = 0;
    while k < out.len()
        invariant
            k <= out@.len(),
            o == out.deep_view(),
            forall|j: int| 0 <= j < k ==> o[j] != lang@,
        decreases out.len() - k,
    {
        if crate::text::str_eq(out[k].as_str(), lang.as_str()) {
            assert(o[k as int] == lang@);
            return;
        }
        k = k + 1;
    }
    assert(!o.contains(lang@));
    out.push(lang);
    assert(out.deep_view() =~= o.push(lang@));
}

/// The order in which a guest's texts are tried (see [`guest_text_langs`]),
/// given the stored keys.
pub fn guest_texts_order(guest_locale: &str, property_locale: &str, keys: &Vec<String>) -> (r: Vec<String>)
    ensures
        r.deep_view() == guest_text_langs(guest_locale@, property_locale@, keys.deep_view()),
{
    let ghost ks = keys.deep_view();
    let mut langs: Vec<(String, bool)> = Vec::new();
    let mut i: usize = 0;
    while i < keys.len()
        invariant
            i <= keys@.len(),
            ks == keys.deep_view(),
            langs.deep_view() == stored_langs(ks.subrange(0, i as int)),
            keys_sorted(langs.deep_view()),
        decreases keys.len() - i,
    {
        assert(ks.subrange(0, i + 1).drop_last() =~= ks.subrange(0, i as int));
        match key_lang_exec(keys[i].as_str()) {
            Some(l) => keyed_insert(&mut langs, l, true),
            None => {},
        }
        i = i + 1;
    }
    assert(ks.subrange(0, ks.len() as int) =~= ks);
    let ghost all = seq![lang_code_of(guest_locale@), lang_code_of(property_locale@), "fr"@] + langs.deep_view().map_values(
        |e: (Seq<char>, bool)| e.0,
    );
    let mut out: Vec<String> = Vec::new();
    push_first(&mut out, lang_code(guest_locale));
    assert(all.subrange(0, 1).drop_last() =~= Seq::<Seq<char>>::empty());
    assert(first_occurrences(Seq::<Seq<char>>::empty()) =~= Seq::<Seq<char>>::empty());
    assert(all[0] == lang_code_of(guest_locale@));
    assert(out.deep_view() == first_occurrences(all.subrange(0, 1)));
    push_first(&mut out, lang_code(property_locale));
    assert(all.subrange(0, 2).drop_last() =~= all.subrange(0, 1));
    assert(out.deep_view() == first_occurrences(all.subrange(0, 2)));
    push_first(&mut out, "fr".to_owned());
    assert(all.subrange(0, 3).drop_last() =~= all.subrange(0, 2));
    assert(out.deep_view() == first_occurrences(all.subrange(0, 3)));
    let mut j: usize = 0;
    while j < langs.len()
        invariant
            j <= langs@.len(),
            all.len() == langs@.len() + 3,
            forall|k: int| 0 <= k < langs@.len() ==> #[trigger] all[k + 3] == langs.deep_view()[k].0,
            out.deep_view() == first_occurrences(all.subrange(0, j + 3)),
        decreases langs.len() - j,
    {
        let l = langs[j].0.clone();
        assert(all.subrange(0, j + 4).drop_last() =~= all.subrange(0, j + 3));
        assert(all[j + 3] == l@);
        push_first(&mut out, l);
        j = j + 1;
    }
    assert(all.subrange(0, all.len() as int) =~= all);
    out
}

/// The first texts with guest-visible copy, else empty texts.
pub open spec fn first_nonempty_texts_of(candidates: Seq<TextsModel>) -> TextsModel
    decreases candidates.len(),
{
    if candidates.len() == 0 {
        empty_texts()
    } else if !texts_empty(candidates[0]) {
        candidates[0]
    } else {
        first_nonempty_texts_of(candidates.drop_first())
    }
}

/// The texts a guest reads among the stored texts of the languages to try,
/// in order (see [`first_nonempty_texts_of`]).
pub fn first_nonempty_texts(candidates: &Vec<ModuleTexts>) -> (r: ModuleTexts)
    ensures
        r.deep_view() == first_nonempty_texts_of(candidates.deep_view()),
{
    let ghost c = candidates.deep_view();
    let mut i: usize = 0;
    assert(c.subrange(0, c.len() as int) =~= c);
    while i < candidates.len()
        invariant
            i <= candidates@.len(),
            c == candidates.deep_view(),
            first_nonempty_texts_of(c) == first_nonempty_texts_of(c.subrange(i as int, c.len() as int)),
        decreases candidates.len() - i,
    {
        let ghost rest = c.subrange(i as int, c.len() as int);
        assert(rest.drop_first() =~= c.subrange(i + 1, c.len() as int));
        assert(rest[0] == c[i as int]);
        if !candidates[i].is_empty() {
            return candidates[i].duplicate();
        }
        i = i + 1;
    }
    ModuleTexts::default()
}

/// Whether texts read from an old stored document are to be stored for
/// their language: they hold copy and the language has none yet.
pub fn should_seed_texts(texts: &ModuleTexts, stored: &ModuleTexts) -> (r: bool)
    ensures
        r == (!texts_empty(texts.deep_view()) && texts_empty(stored.deep_view())),
{
    !texts.is_empty() && stored.is_empty()
}

} // verus!
