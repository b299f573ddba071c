//! The host's settings page: the flat fields it shows, prefilled from the
//! stored configuration and the copy of the host's language, and carried as
//! they are by the save command.

use vstd::prelude::*;

use crate::access_guide::config::{
    gate_code_of, keybox_code_of, parking_map_url_of, resolved_steps_of, ConfigModel, ModuleConfig,
    ResolvedStep, ResolvedStepModel,
};
use crate::access_guide::texts::{ModuleTexts, TextsModel};
use crate::json::{json_text, model_of, models_of, push_item, push_member, write_json, JsonModel, JsonValue};

verus! {

/// The fields of the host's settings page.
#[derive(Debug, Clone, PartialEq, Eq)]
pub struct HostForm {
    pub address: String,
    pub gate_code: String,
    pub keybox_code: String,
    pub parking_info: String,
    pub parking_map_url: String,
    pub arrival_video_url: String,
    pub global_note: String,
    /// The arrival steps as a JSON list of `{id, kind, title, detail}`.
    pub steps_json: String,
}

/// [`HostForm`] with texts as sequences.
pub struct HostFormModel {
    pub address: Seq<char>,
    pub gate_code: Seq<char>,
    pub keybox_code: Seq<char>,
    pub parking_info: Seq<char>,
    pub parking_map_url: Seq<char>,
    pub arrival_video_url: Seq<char>,
    pub global_note: Seq<char>,
    pub steps_json: Seq<char>,
}

impl DeepView for HostForm {
    type V = HostFormModel;

    open spec fn deep_view(&self) -> HostFormModel {
        HostFormModel {
            address: self.address@,
            gate_code: self.gate_code@,
            keybox_code: self.keybox_code@,
            parking_info: self.parking_info@,
            parking_map_url: self.parking_map_url@,
            arrival_video_url: self.arrival_video_url@,
            global_note: self.global_note@,
            steps_json: self.steps_json@,
        }
    }
}

/// An optional text as a field value (empty when absent).
pub open spec fn field_text(o: Option<Seq<char>>) -> Seq<char> {
    match o {
        Some(s) => s,
        None => Seq::empty(),
    }
}

/// Members of an optional text member.
pub open spec fn opt_member(key: Seq<char>, o: Option<Seq<char>>) -> Seq<(Seq<char>, JsonModel)> {
    match o {
        Some(s) => seq![(key, JsonModel::Str(s))],
        None => Seq::empty(),
    }
}

/// One step as a JSON object: `id`, `kind` when set, `title`, `detail` when
/// set.
pub open spec fn step_json(s: ResolvedStepModel) -> JsonModel {
    JsonModel::Object(
        seq![("id"@, JsonModel::Str(s.id))] + opt_member("kind"@, s.kind) + seq![
            ("title"@, JsonModel::Str(s.title)),
        ] + opt_member("detail"@, s.detail),
    )
}

/// The page as prefilled: the arrival address, the door or gate code, the
/// keybox code, the parking copy and plan link, the video link, the global
/// note, and the named steps with this language's titles.
pub open spec fn host_form_model(c: ConfigModel, t: TextsModel) -> HostFormModel {
    HostFormModel {
        address: c.arrival.address,
        gate_code: field_text(gate_code_of(c)),
        keybox_code: field_text(keybox_code_of(c)),
        parking_info: t.parking_info,
        parking_map_url: field_text(parking_map_url_of(c)),
        arrival_video_url: c.arrival.arrival_video_url,
        global_note: t.global_note,
        steps_json: json_text(
            JsonModel::Array(resolved_steps_of(c, t).map_values(|s: ResolvedStepModel| step_json(s))),
        ),
    }
}

fn owned_field(o: Option<&str>) -> (r: String)
    ensures
        r@ == field_text(crate::access_guide::config::opt_view(o)),
{
    match o {
        Some(s) => s.to_owned(),
        None => String::new(),
    }
}

fn push_opt_member(m: &mut Vec<(String, JsonValue)>, key: &str, o: &Option<String>)
    ensures
        crate::json::members_model_of(final(m)@) == crate::json::members_model_of(old(m)@) + opt_member(
            key@,
            o.deep_view(),
        ),
{
    match o {
        Some(s) => push_member(m, key, JsonValue::Str(s.clone())),
        None => {
            assert(crate::json::members_model_of(m@) + opt_member(key@, o.deep_view())
                =~= crate::json::members_model_of(m@));
        },
    }
}

fn step_value(s: &ResolvedStep) -> (r: JsonValue)
    ensures
        model_of(r) == step_json(s.deep_view()),
{
    let mut m: Vec<(String, JsonValue)> = Vec::new();
    proof {
        reveal_strlit("id");
        assert(crate::json::members_model_of(m@) =~= Seq::<(Seq<char>, JsonModel)>::empty());
    }
    push_member(&mut m, "id", JsonValue::Str(s.id.clone()));
    push_opt_member(&mut m, "kind", &s.kind);
    push_member(&mut m, "title", JsonValue::Str(s.title.clone()));
    push_opt_member(&mut m, "detail", &s.detail);
    let r = JsonValue::Object(m);
    assert(crate::json::members_model_of(m@) =~= seq![("id"@, JsonModel::Str(s.id@))] + opt_member(
        "kind"@,
        s.kind.deep_view(),
    ) + seq![("title"@, JsonModel::Str(s.title@))] + opt_member("detail"@, s.detail.deep_view()));
    r
}

/// The settings page as prefilled (see [`host_form_model`]).
pub fn host_form(config: &ModuleConfig, texts: &ModuleTexts) -> (r: HostForm)
    ensures
        r.deep_view() == host_form_model(config.deep_view(), texts.deep_view()),
{
    let steps = config.resolve_steps(texts);
    let ghost sv = steps.deep_view();
    let mut items: Vec<JsonValue> = Vec::new();
    let mut i: usize = 0;
    assert(models_of(items@) =~= Seq::<JsonModel>::empty());
    while i < steps.len()
        invariant
            i <= steps@.len(),
            sv == steps.deep_view(),
            models_of(items@) == sv.subrange(0, i as int).map_values(|s: ResolvedStepModel| step_json(s)),
        decreases steps.len() - i,
    {
        let v = step_value(&steps[i]);
        push_item(&mut items, v);
        i = i + 1;
        assert(models_of(items@) =~= sv.subrange(0, i as int).map_values(|s: ResolvedStepModel| step_json(s)));
    }
    assert(sv.subrange(0, i as int) =~= sv);
    let list = JsonValue::Array(items);
    let steps_json = write_json(&list);
    HostForm {
        address: config.address().to_owned(),
        gate_code: owned_field(config.gate_code()),
        keybox_code: owned_field(config.keybox_code()),
        parking_info: texts.parking_info.clone(),
        parking_map_url: owned_field(config.parking_map_url()),
        arrival_video_url: config.arrival_video_url().to_owned(),
        global_note: texts.global_note.clone(),
        steps_json,
    }
}

} // verus!
