//! `updateConfig`: assembles the shared configuration and the copy of the
//! active locale from the host form, the structured API shape or the legacy
//! flat fields.

use vstd::prelude::*;

use crate::access_guide::config::{
    AccessStep, AccessStepModel, ArrivalGuide, ArrivalModel, BuildingAccess, BuildingAccessModel,
    ConfigModel, DoorCodeTarget, MethodFields, MethodModel, ModuleConfig, ParkingLayer,
    ParkingLayerModel, PrimaryMethod, RawConfig, RawModel, RawStep, RevealPolicy, StaffKind,
    clone_opt, config_from_update_parts, empty_arrival, gate_code_of, keybox_code_of, method_primary,
    migrated, smart_lock_code_of,
};
use crate::access_guide::texts::{ModuleTexts, StepText, StepTextModel, TextsModel, empty_texts, side_of, step_text_empty};
use crate::json::{JsonValue, get_of, get_str, json_parse, parse_json, str_of};
use crate::text::{
    blank, decimal_of, is_blank, nonempty_of, nonempty_owned, push_decimal, str_eq, trim, trim_str,
    trimmed_owned,
};

verus! {

/// One arrival step row of the host form.
#[derive(Debug, Clone, PartialEq, Eq, Default)]
pub struct StepInput {
    pub kind: String,
    pub title: String,
    pub detail: String,
    pub title_fr: String,
    pub title_en: String,
    pub detail_fr: String,
    pub detail_en: String,
}

/// Arguments of `updateConfig`: structured fields, host form flat fields and
/// legacy flat fields. Meeting-point coordinates arrive as form text.
#[derive(Debug, Clone, PartialEq, Default)]
pub struct UpdateConfigArgs {
    pub primary_method: Option<PrimaryMethod>,
    pub method: Option<MethodFields>,
    pub building_access: Option<BuildingAccess>,
    pub parking: Option<ParkingLayer>,
    pub arrival: Option<ArrivalGuide>,
    pub reveal_policy: Option<RevealPolicy>,
    pub smart_lock_provider_module_id: Option<String>,
    pub building_access_enabled: Option<bool>,
    pub parking_enabled: Option<bool>,
    pub keybox_location: String,
    pub keybox_instructions: String,
    pub door_code_target: String,
    pub door_code: String,
    pub door_code_instructions: String,
    pub smart_lock_instructions: String,
    pub smart_lock_manual_code: String,
    pub smart_lock_provider_module_id_custom: String,
    pub in_person_meeting_place: String,
    pub in_person_meeting_lat: String,
    pub in_person_meeting_lng: String,
    pub in_person_time_hint: String,
    pub in_person_contact: String,
    pub building_staff_kind: String,
    pub building_staff_desk_location: String,
    pub building_staff_hours: String,
    pub building_staff_contact: String,
    pub host_greets_contact_note: String,
    pub host_greets_eta_hint: String,
    pub other_instructions: String,
    pub building_access_gate_code: String,
    pub building_access_intercom: String,
    pub building_access_note: String,
    pub parking_code: String,
    pub steps: Vec<StepInput>,
    pub steps_json: String,
    pub parking_map_url: String,
    pub arrival_video_url: String,
    pub global_note: String,
    pub address: String,
    pub gate_code: String,
    pub keybox_code: String,
    pub parking_info: String,
    pub texts: Option<ModuleTexts>,
}

// ── Steps ───────────────────────────────────────────────────────────────────

/// First candidate that is not blank, trimmed; empty when all are blank.
pub open spec fn first_nonempty_of(c: Seq<Seq<char>>) -> Seq<char>
    decreases c.len(),
{
    if c.len() == 0 {
        Seq::empty()
    } else if trim(c[0]).len() > 0 {
        trim(c[0])
    } else {
        first_nonempty_of(c.drop_first())
    }
}

/// First candidate that is not blank, trimmed.
pub fn first_nonempty_str<'a>(candidates: &[&'a str]) -> (r: &'a str)
    ensures
        r@ == first_nonempty_of(candidates@.map_values(|s: &str| s@)),
{
    let ghost all = candidates@.map_values(|s: &str| s@);
    let mut i: usize = 0;
    assert(all.subrange(0, all.len() as int) =~= all);
    while i < candidates.len()
        invariant
            i <= candidates@.len(),
            all == candidates@.map_values(|s: &str| s@),
            first_nonempty_of(all) == first_nonempty_of(all.subrange(i as int, all.len() as int)),
        decreases candidates.len() - i,
    {
        let ghost rest = all.subrange(i as int, all.len() as int);
        assert(rest.drop_first() =~= all.subrange(i + 1, all.len() as int));
        let trimmed = trim_str(candidates[i]);
        if trimmed.unicode_len() > 0 {
            return trimmed;
        }
        i = i + 1;
    }
    assert(all.subrange(i as int, all.len() as int) =~= Seq::<Seq<char>>::empty());
    proof {
        reveal_strlit("");
    }
    ""
}

/// Id given to the step at a 1-based position (`step-1`, `step-2`, ...).
pub open spec fn step_id_of(n: nat) -> Seq<char> {
    "step-"@ + decimal_of(n)
}

fn step_id(n: usize) -> (r: String)
    ensures
        r@ == step_id_of(n as nat),
{
    let mut s = "step-".to_owned();
    push_decimal(&mut s, n);
    s
}

/// Skeleton and text of one host form step row at `index`: kept when it has a
/// title or a kind (a kind alone keeps a draft slot).
pub open spec fn step_from_input_of(input: StepInput, index: nat) -> Option<
    (AccessStepModel, StepTextModel),
> {
    let title = first_nonempty_of(seq![input.title@, input.title_fr@, input.title_en@]);
    let kind = trim(input.kind@);
    let detail = first_nonempty_of(seq![input.detail@, input.detail_fr@, input.detail_en@]);
    if title.len() == 0 && kind.len() == 0 {
        None
    } else {
        let id = step_id_of(index + 1);
        Some(
            (
                AccessStepModel {
                    id,
                    kind: if kind.len() == 0 {
                        None
                    } else {
                        Some(kind)
                    },
                },
                StepTextModel {
                    id,
                    title,
                    detail: if detail.len() == 0 {
                        None
                    } else {
                        Some(detail)
                    },
                },
            ),
        )
    }
}

/// Skeleton and text of one host form step row.
pub fn step_from_input(input: &StepInput, index: usize) -> (r: Option<(AccessStep, StepText)>)
    requires
        index < usize::MAX,
    ensures
        match r {
            Some((a, t)) => step_from_input_of(*input, index as nat) == Some(
                (a.deep_view(), t.deep_view()),
            ),
            None => step_from_input_of(*input, index as nat) is None,
        },
{
    let titles = [input.title.as_str(), input.title_fr.as_str(), input.title_en.as_str()];
    let title = first_nonempty_str(&titles);
    let kind = trim_str(input.kind.as_str());
    let details = [input.detail.as_str(), input.detail_fr.as_str(), input.detail_en.as_str()];
    let detail = first_nonempty_str(&details);
    assert(titles@.map_values(|s: &str| s@) =~= seq![input.title@, input.title_fr@, input.title_en@]);
    assert(details@.map_values(|s: &str| s@) =~= seq![input.detail@, input.detail_fr@, input.detail_en@]);
    if title.unicode_len() == 0 && kind.unicode_len() == 0 {
        return None;
    }
    let id = step_id(index + 1);
    let skeleton = AccessStep {
        id: id.clone(),
        kind: if kind.unicode_len() == 0 {
            None
        } else {
            Some(kind.to_owned())
        },
    };
    let text = StepText {
        id,
        title: title.to_owned(),
        detail: if detail.unicode_len() == 0 {
            None
        } else {
            Some(detail.to_owned())
        },
    };
    Some((skeleton, text))
}

/// Steps and texts of the host form rows, in order; a text is kept when it is
/// not empty.
pub open spec fn input_parts_of(inputs: Seq<StepInput>) -> (Seq<AccessStepModel>, Seq<StepTextModel>)
    decreases inputs.len(),
{
    if inputs.len() == 0 {
        (Seq::empty(), Seq::empty())
    } else {
        let rest = input_parts_of(inputs.drop_last());
        match step_from_input_of(inputs.last(), (inputs.len() - 1) as nat) {
            Some((sk, tx)) => (
                rest.0.push(sk),
                if !step_text_empty(tx) {
                    rest.1.push(tx)
                } else {
                    rest.1
                },
            ),
            None => rest,
        }
    }
}

/// A trimmed non-blank string member.
pub open spec fn nonempty_member(v: JsonValue, key: Seq<char>) -> Option<Seq<char>> {
    match str_of(get_of(v, key)) {
        Some(s) if trim(s).len() > 0 => Some(trim(s)),
        _ => None,
    }
}

/// Skeleton and text of one `steps_json` entry at `index`.
pub open spec fn json_step_of(v: JsonValue, index: nat) -> (AccessStepModel, StepTextModel) {
    let id = match nonempty_member(v, "id"@) {
        Some(i) => i,
        None => step_id_of(index + 1),
    };
    (
        AccessStepModel { id, kind: nonempty_member(v, "kind"@) },
        StepTextModel {
            id,
            title: trim(side_of(get_of(v, "title"@))),
            detail: nonempty_member(v, "detail"@),
        },
    )
}

/// Steps and texts of the `steps_json` entries; a text is kept when it has a
/// title or a detail.
pub open spec fn json_parts_of(a: Seq<JsonValue>) -> (Seq<AccessStepModel>, Seq<StepTextModel>)
    decreases a.len(),
{
    if a.len() == 0 {
        (Seq::empty(), Seq::empty())
    } else {
        let rest = json_parts_of(a.drop_last());
        let (sk, tx) = json_step_of(a.last(), (a.len() - 1) as nat);
        (
            rest.0.push(sk),
            if tx.title.len() > 0 || tx.detail is Some {
                rest.1.push(tx)
            } else {
                rest.1
            },
        )
    }
}

/// Steps and texts of the arguments: the host form rows when there are any,
/// else the `steps_json` array (nothing when it is not one).
pub open spec fn step_parts_of(args: UpdateConfigArgs) -> (Seq<AccessStepModel>, Seq<StepTextModel>) {
    if args.steps@.len() > 0 {
        input_parts_of(args.steps@)
    } else if is_blank(args.steps_json@) {
        (Seq::empty(), Seq::empty())
    } else {
        match json_parse(trim(args.steps_json@)) {
            Some(JsonValue::Array(a)) => json_parts_of(a@),
            _ => (Seq::empty(), Seq::empty()),
        }
    }
}

fn nonempty_member_exec(v: &JsonValue, key: &str) -> (r: Option<String>)
    ensures
        r.deep_view() == nonempty_member(*v, key@),
{
    match get_str(v, key) {
        Some(s) => {
            let t = trim_str(s);
            if t.unicode_len() > 0 {
                Some(t.to_owned())
            } else {
                None
            }
        },
        None => None,
    }
}

fn json_step(v: &JsonValue, index: usize) -> (r: (AccessStep, StepText))
    requires
        index < usize::MAX,
    ensures
        (r.0.deep_view(), r.1.deep_view()) == json_step_of(*v, index as nat),
{
    let id = match nonempty_member_exec(v, "id") {
        Some(i) => i,
        None => step_id(index + 1),
    };
    let kind = nonempty_member_exec(v, "kind");
    let title = match get_str(v, "title") {
        Some(s) => trimmed_owned(s),
        None => String::new(),
    };
    let detail = nonempty_member_exec(v, "detail");
    (AccessStep { id: id.clone(), kind }, StepText { id, title, detail })
}

impl UpdateConfigArgs {
    /// Step skeletons and step texts carried by the arguments.
    pub fn resolve_step_parts(&self) -> (r: (Vec<AccessStep>, Vec<StepText>))
        ensures
            (r.0.deep_view(), r.1.deep_view()) == step_parts_of(*self),
    {
        let mut skeletons: Vec<AccessStep> = Vec::new();
        let mut texts: Vec<StepText> = Vec::new();
        if self.steps.len() > 0 {
            let mut i: usize = 0;
            while i < self.steps.len()
                invariant
                    i <= self.steps@.len(),
                    (skeletons.deep_view(), texts.deep_view()) == input_parts_of(
                        self.steps@.subrange(0, i as int),
                    ),
                decreases self.steps.len() - i,
            {
                let ghost pre = self.steps@.subrange(0, i + 1);
                assert(pre.drop_last() =~= self.steps@.subrange(0, i as int));
                match step_from_input(&self.steps[i], i) {
                    Some((skeleton, text)) => {
                        let keep = !text.is_empty();
                        skeletons.push(skeleton);
                        if keep {
                            texts.push(text);
                        }
                    },
                    None => {},
                }
                i = i + 1;
            }
            assert(self.steps@.subrange(0, self.steps@.len() as int) =~= self.steps@);
            return (skeletons, texts);
        }
        let raw = trim_str(self.steps_json.as_str());
        if raw.unicode_len() == 0 {
            return (skeletons, texts);
        }
        let parsed = parse_json(raw);
        match &parsed {
            Some(JsonValue::Array(a)) => {
                let mut i: usize = 0;
                while i < a.len()
                    invariant
                        i <= a@.len(),
                        (skeletons.deep_view(), texts.deep_view()) == json_parts_of(
                            a@.subrange(0, i as int),
                        ),
                    decreases a.len() - i,
                {
                    let ghost pre = a@.subrange(0, i + 1);
                    assert(pre.drop_last() =~= a@.subrange(0, i as int));
                    let (skeleton, text) = json_step(&a[i], i);
                    let keep = text.title.unicode_len() > 0 || text.detail.is_some();
                    skeletons.push(skeleton);
                    if keep {
                        texts.push(text);
                    }
                    i = i + 1;
                }
                assert(a@.subrange(0, a@.len() as int) =~= a@);
                (skeletons, texts)
            },
            _ => (skeletons, texts),
        }
    }
}


// ── Flat host form fields ───────────────────────────────────────────────────

/// First present option among four.
pub open spec fn or4(
    a: Option<Seq<char>>,
    b: Option<Seq<char>>,
    c: Option<Seq<char>>,
    d: Option<Seq<char>>,
) -> Option<Seq<char>> {
    if a is Some {
        a
    } else if b is Some {
        b
    } else if c is Some {
        c
    } else {
        d
    }
}

/// Texts completed from the flat form fields: each field is filled only while
/// it is unset (notes) or blank (parking info, global note); the method
/// instructions come from the first non-blank of the other, keybox, door-code
/// and smart-lock instruction fields.
pub open spec fn merge_flat_of(t: TextsModel, args: UpdateConfigArgs) -> TextsModel {
    TextsModel {
        building_note: if t.building_note is None {
            nonempty_of(args.building_access_note@)
        } else {
            t.building_note
        },
        parking_info: if is_blank(t.parking_info) {
            trim(args.parking_info@)
        } else {
            t.parking_info
        },
        global_note: if is_blank(t.global_note) {
            trim(args.global_note@)
        } else {
            t.global_note
        },
        method_instructions: if t.method_instructions is None {
            or4(
                nonempty_of(args.other_instructions@),
                nonempty_of(args.keybox_instructions@),
                nonempty_of(args.door_code_instructions@),
                nonempty_of(args.smart_lock_instructions@),
            )
        } else {
            t.method_instructions
        },
        steps: t.steps,
    }
}

/// Fill unset texts from the flat host form fields.
pub fn merge_flat_texts(texts: &mut ModuleTexts, args: &UpdateConfigArgs)
    ensures
        final(texts).deep_view() == merge_flat_of(old(texts).deep_view(), *args),
{
    if texts.building_note.is_none() {
        texts.building_note = nonempty_owned(args.building_access_note.as_str());
    }
    if blank(texts.parking_info.as_str()) {
        texts.parking_info = trimmed_owned(args.parking_info.as_str());
    }
    if blank(texts.global_note.as_str()) {
        texts.global_note = trimmed_owned(args.global_note.as_str());
    }
    if texts.method_instructions.is_none() {
        let from_other = nonempty_owned(args.other_instructions.as_str());
        let from_keybox = nonempty_owned(args.keybox_instructions.as_str());
        let from_door = nonempty_owned(args.door_code_instructions.as_str());
        let from_smart = nonempty_owned(args.smart_lock_instructions.as_str());
        texts.method_instructions = if from_other.is_some() {
            from_other
        } else if from_keybox.is_some() {
            from_keybox
        } else if from_door.is_some() {
            from_door
        } else {
            from_smart
        };
    }
}

/// Instructions of the form field that belongs to the primary method.
pub open spec fn instructions_from_form_of(args: UpdateConfigArgs, primary: PrimaryMethod) -> Option<
    Seq<char>,
> {
    match primary {
        PrimaryMethod::Keybox => nonempty_of(args.keybox_instructions@),
        PrimaryMethod::DoorCode => nonempty_of(args.door_code_instructions@),
        PrimaryMethod::SmartLock => nonempty_of(args.smart_lock_instructions@),
        PrimaryMethod::Other => nonempty_of(args.other_instructions@),
        _ => None,
    }
}

/// Instructions of the form field that belongs to the primary method.
pub fn method_instructions_from_form(args: &UpdateConfigArgs, primary: PrimaryMethod) -> (r: Option<
    String,
>)
    ensures
        r.deep_view() == instructions_from_form_of(*args, primary),
{
    match primary {
        PrimaryMethod::Keybox => nonempty_owned(args.keybox_instructions.as_str()),
        PrimaryMethod::DoorCode => nonempty_owned(args.door_code_instructions.as_str()),
        PrimaryMethod::SmartLock => nonempty_owned(args.smart_lock_instructions.as_str()),
        PrimaryMethod::Other => nonempty_owned(args.other_instructions.as_str()),
        _ => None,
    }
}

/// Door-code target named by the form (`gate`, `apartment`; anything else is
/// the building).
pub open spec fn door_target_of(raw: Seq<char>) -> DoorCodeTarget {
    if trim(raw) == "gate"@ {
        DoorCodeTarget::Gate
    } else if trim(raw) == "apartment"@ {
        DoorCodeTarget::Apartment
    } else {
        DoorCodeTarget::Building
    }
}

/// Door-code target from the form value.
pub fn parse_door_target(raw: &str) -> (r: DoorCodeTarget)
    ensures
        r == door_target_of(raw@),
{
    let t = trim_str(raw);
    if str_eq(t, "gate") {
        DoorCodeTarget::Gate
    } else if str_eq(t, "apartment") {
        DoorCodeTarget::Apartment
    } else {
        DoorCodeTarget::Building
    }
}

/// Staff kind named by the form (`caretaker`; anything else is reception).
pub open spec fn staff_kind_of(raw: Seq<char>) -> StaffKind {
    if trim(raw) == "caretaker"@ {
        StaffKind::Caretaker
    } else {
        StaffKind::Reception
    }
}

/// Staff kind from the form value.
pub fn parse_staff_kind(raw: &str) -> (r: StaffKind)
    ensures
        r == staff_kind_of(raw@),
{
    if str_eq(trim_str(raw), "caretaker") {
        StaffKind::Caretaker
    } else {
        StaffKind::Reception
    }
}

/// Method fields assembled from the form section of the primary method.
/// `coords` is the meeting point already validated from the form (both or
/// neither).
pub open spec fn assemble_method_of(
    args: UpdateConfigArgs,
    primary: PrimaryMethod,
    coords: (Option<Seq<char>>, Option<Seq<char>>),
) -> MethodModel {
    match primary {
        PrimaryMethod::Keybox => MethodModel::Keybox {
            location: trim(args.keybox_location@),
            code: nonempty_of(args.keybox_code@),
        },
        PrimaryMethod::DoorCode => MethodModel::DoorCode {
            target: door_target_of(args.door_code_target@),
            code: if !is_blank(args.door_code@) {
                trim(args.door_code@)
            } else {
                trim(args.gate_code@)
            },
        },
        PrimaryMethod::SmartLock => MethodModel::SmartLock {
            manual_code: nonempty_of(args.smart_lock_manual_code@),
        },
        PrimaryMethod::InPerson => MethodModel::InPerson {
            meeting_place: trim(args.in_person_meeting_place@),
            lat: coords.0,
            lng: coords.1,
            time_hint: nonempty_of(args.in_person_time_hint@),
            contact: nonempty_of(args.in_person_contact@),
        },
        PrimaryMethod::BuildingStaff => MethodModel::BuildingStaff {
            staff_kind: staff_kind_of(args.building_staff_kind@),
            desk_location: trim(args.building_staff_desk_location@),
            hours: nonempty_of(args.building_staff_hours@),
            contact: nonempty_of(args.building_staff_contact@),
        },
        PrimaryMethod::HostGreets => MethodModel::HostGreets {
            contact_note: nonempty_of(args.host_greets_contact_note@),
            eta_hint: nonempty_of(args.host_greets_eta_hint@),
        },
        PrimaryMethod::Other => MethodModel::Other,
    }
}

/// Method fields from the host form section of the primary method.
pub fn assemble_method(
    args: &UpdateConfigArgs,
    primary: PrimaryMethod,
    coords: (Option<String>, Option<String>),
) -> (r: MethodFields)
    ensures
        r.deep_view() == assemble_method_of(*args, primary, coords.deep_view()),
{
    match primary {
        PrimaryMethod::Keybox => MethodFields::Keybox {
            location: trimmed_owned(args.keybox_location.as_str()),
            code: nonempty_owned(args.keybox_code.as_str()),
        },
        PrimaryMethod::DoorCode => {
            let code = if !blank(args.door_code.as_str()) {
                trimmed_owned(args.door_code.as_str())
            } else {
                trimmed_owned(args.gate_code.as_str())
            };
            MethodFields::DoorCode { target: parse_door_target(args.door_code_target.as_str()), code }
        },
        PrimaryMethod::SmartLock => MethodFields::SmartLock {
            manual_code: nonempty_owned(args.smart_lock_manual_code.as_str()),
        },
        PrimaryMethod::InPerson => {
            let (lat, lng) = coords;
            MethodFields::InPerson {
                meeting_place: trimmed_owned(args.in_person_meeting_place.as_str()),
                lat,
                lng,
                time_hint: nonempty_owned(args.in_person_time_hint.as_str()),
                contact: nonempty_owned(args.in_person_contact.as_str()),
            }
        },
        PrimaryMethod::BuildingStaff => MethodFields::BuildingStaff {
            staff_kind: parse_staff_kind(args.building_staff_kind.as_str()),
            desk_location: trimmed_owned(args.building_staff_desk_location.as_str()),
            hours: nonempty_owned(args.building_staff_hours.as_str()),
            contact: nonempty_owned(args.building_staff_contact.as_str()),
        },
        PrimaryMethod::HostGreets => MethodFields::HostGreets {
            contact_note: nonempty_owned(args.host_greets_contact_note.as_str()),
            eta_hint: nonempty_owned(args.host_greets_eta_hint.as_str()),
        },
        PrimaryMethod::Other => MethodFields::Other,
    }
}

/// Some building flat field holds text.
pub open spec fn has_building_flat_of(args: UpdateConfigArgs) -> bool {
    !is_blank(args.building_access_gate_code@) || !is_blank(args.building_access_intercom@)
        || !is_blank(args.building_access_note@)
}

/// Some parking flat field holds text.
pub open spec fn has_parking_flat_of(args: UpdateConfigArgs) -> bool {
    !is_blank(args.parking_info@) || !is_blank(args.parking_map_url@) || !is_blank(
        args.parking_code@,
    )
}

/// True when a building flat field holds text.
pub fn has_building_flat(args: &UpdateConfigArgs) -> (r: bool)
    ensures
        r == has_building_flat_of(*args),
{
    !blank(args.building_access_gate_code.as_str()) || !blank(args.building_access_intercom.as_str())
        || !blank(args.building_access_note.as_str())
}

/// True when a parking flat field holds text.
pub fn has_parking_flat(args: &UpdateConfigArgs) -> (r: bool)
    ensures
        r == has_parking_flat_of(*args),
{
    !blank(args.parking_info.as_str()) || !blank(args.parking_map_url.as_str()) || !blank(
        args.parking_code.as_str(),
    )
}

/// Building layer from the form: off when disabled; the structured layer when
/// it is given and the switch is not on and no flat field is filled; else off
/// unless the switch is on or a flat field is filled, in which case the flat
/// fields build it (gate code falling back to the legacy gate code).
pub open spec fn assemble_building_of(args: UpdateConfigArgs) -> Option<BuildingAccessModel> {
    if args.building_access_enabled == Some(false) {
        None
    } else if args.building_access is Some && args.building_access_enabled != Some(true)
        && !has_building_flat_of(args) {
        Some(args.building_access->0.deep_view())
    } else if args.building_access_enabled != Some(true) && !has_building_flat_of(args) {
        None
    } else {
        Some(
            BuildingAccessModel {
                gate_code: match nonempty_of(args.building_access_gate_code@) {
                    Some(g) => Some(g),
                    None => nonempty_of(args.gate_code@),
                },
                intercom: nonempty_of(args.building_access_intercom@),
            },
        )
    }
}

/// Parking layer from the form, by the same rule as the building layer; an
/// empty layer is kept as the enable marker.
pub open spec fn assemble_parking_of(args: UpdateConfigArgs) -> Option<ParkingLayerModel> {
    if args.parking_enabled == Some(false) {
        None
    } else if args.parking is Some && args.parking_enabled != Some(true) && !has_parking_flat_of(
        args,
    ) {
        Some(args.parking->0.deep_view())
    } else if args.parking_enabled != Some(true) && !has_parking_flat_of(args) {
        None
    } else {
        Some(
            ParkingLayerModel {
                map_url: trim(args.parking_map_url@),
                code: nonempty_of(args.parking_code@),
            },
        )
    }
}

fn flag_is(flag: Option<bool>, value: bool) -> (r: bool)
    ensures
        r == (flag == Some(value)),
{
    match flag {
        Some(b) => b == value,
        None => false,
    }
}

/// Building layer from the host form.
pub fn assemble_building_access(args: &UpdateConfigArgs) -> (r: Option<BuildingAccess>)
    ensures
        r.deep_view() == assemble_building_of(*args),
{
    if flag_is(args.building_access_enabled, false) {
        return None;
    }
    let on = flag_is(args.building_access_enabled, true);
    let flat = has_building_flat(args);
    match &args.building_access {
        Some(structured) => {
            if !on && !flat {
                return Some(structured.duplicate());
            }
        },
        None => {},
    }
    if !on && !flat {
        return None;
    }
    let gate = match nonempty_owned(args.building_access_gate_code.as_str()) {
        Some(g) => Some(g),
        None => nonempty_owned(args.gate_code.as_str()),
    };
    Some(BuildingAccess { gate_code: gate, intercom: nonempty_owned(args.building_access_intercom.as_str()) })
}

/// Parking layer from the host form.
pub fn assemble_parking(args: &UpdateConfigArgs) -> (r: Option<ParkingLayer>)
    ensures
        r.deep_view() == assemble_parking_of(*args),
{
    if flag_is(args.parking_enabled, false) {
        return None;
    }
    let on = flag_is(args.parking_enabled, true);
    let flat = has_parking_flat(args);
    match &args.parking {
        Some(structured) => {
            if !on && !flat {
                return Some(structured.duplicate());
            }
        },
        None => {},
    }
    if !on && !flat {
        return None;
    }
    Some(ParkingLayer {
        map_url: trimmed_owned(args.parking_map_url.as_str()),
        code: nonempty_owned(args.parking_code.as_str()),
    })
}

/// Smart-lock provider: the custom id, else the chosen id, trimmed.
pub open spec fn provider_from_form_of(args: UpdateConfigArgs) -> Option<Seq<char>> {
    match nonempty_of(args.smart_lock_provider_module_id_custom@) {
        Some(c) => Some(c),
        None => match args.smart_lock_provider_module_id {
            Some(s) => nonempty_of(s@),
            None => None,
        },
    }
}

/// Smart-lock provider module chosen in the form.
pub fn resolve_smart_lock_provider(args: &UpdateConfigArgs) -> (r: Option<String>)
    ensures
        r.deep_view() == provider_from_form_of(*args),
{
    match nonempty_owned(args.smart_lock_provider_module_id_custom.as_str()) {
        Some(c) => Some(c),
        None => match &args.smart_lock_provider_module_id {
            Some(s) => nonempty_owned(s.as_str()),
            None => None,
        },
    }
}


// ── The three argument shapes ───────────────────────────────────────────────

/// Given texts (or empty ones) whose steps come from the arguments when they
/// have none, completed from the flat fields.
pub open spec fn base_texts_of(args: UpdateConfigArgs) -> TextsModel {
    let t0 = match args.texts {
        Some(t) => t.deep_view(),
        None => empty_texts(),
    };
    let t1 = if t0.steps.len() == 0 {
        TextsModel { steps: step_parts_of(args).1, ..t0 }
    } else {
        t0
    };
    merge_flat_of(t1, args)
}

/// Structured shape (a `method` is given): the given arrival, completed from
/// the legacy steps, address and video link, goes through the document
/// migration together with the given layers.
pub open spec fn structured_of(args: UpdateConfigArgs) -> (ConfigModel, TextsModel) {
    let a0 = match args.arrival {
        Some(a) => a.deep_view(),
        None => empty_arrival(),
    };
    let arrival = ArrivalModel {
        steps: if a0.steps.len() == 0 {
            step_parts_of(args).0
        } else {
            a0.steps
        },
        address: if is_blank(a0.address) && !is_blank(args.address@) {
            trim(args.address@)
        } else {
            a0.address
        },
        arrival_video_url: if is_blank(a0.arrival_video_url) && !is_blank(args.arrival_video_url@) {
            trim(args.arrival_video_url@)
        } else {
            a0.arrival_video_url
        },
    };
    let raw = RawModel {
        primary_method: args.primary_method,
        method: args.method.deep_view(),
        building_access: args.building_access.deep_view(),
        parking: args.parking.deep_view(),
        arrival: Some(arrival),
        reveal_policy: args.reveal_policy,
        smart_lock_provider_module_id: args.smart_lock_provider_module_id.deep_view(),
        steps: Seq::empty(),
        steps_json: Seq::empty(),
        parking_map_url: args.parking_map_url@,
        arrival_video_url: args.arrival_video_url@,
        global_note: Seq::empty(),
        address: args.address@,
        gate_code: args.gate_code@,
        keybox_code: args.keybox_code@,
        parking_info: Seq::empty(),
    };
    (migrated(raw), base_texts_of(args))
}

/// Legacy flat shape (neither `method` nor `primary_method`): the flat fields
/// go through the document migration; the texts hold the step texts and the
/// flat copy.
pub open spec fn legacy_of(args: UpdateConfigArgs) -> (ConfigModel, TextsModel) {
    let parts = step_parts_of(args);
    let raw = RawModel {
        primary_method: None,
        method: None,
        building_access: None,
        parking: None,
        arrival: None,
        reveal_policy: args.reveal_policy,
        smart_lock_provider_module_id: args.smart_lock_provider_module_id.deep_view(),
        steps: parts.0,
        steps_json: Seq::empty(),
        parking_map_url: args.parking_map_url@,
        arrival_video_url: args.arrival_video_url@,
        global_note: Seq::empty(),
        address: args.address@,
        gate_code: args.gate_code@,
        keybox_code: args.keybox_code@,
        parking_info: args.parking_info@,
    };
    (migrated(raw), merge_flat_of(TextsModel { steps: parts.1, ..empty_texts() }, args))
}

/// Host form shape (`primary_method` given, no `method`): every part is
/// assembled from the form section of that method.
pub open spec fn host_form_of(
    args: UpdateConfigArgs,
    primary: PrimaryMethod,
    coords: (Option<Seq<char>>, Option<Seq<char>>),
) -> (ConfigModel, TextsModel) {
    let method = assemble_method_of(args, primary, coords);
    let t = base_texts_of(args);
    let texts = if t.method_instructions is None {
        TextsModel { method_instructions: instructions_from_form_of(args, primary), ..t }
    } else {
        t
    };
    (
        ConfigModel {
            primary_method: method_primary(method),
            method,
            building_access: assemble_building_of(args),
            parking: assemble_parking_of(args),
            arrival: ArrivalModel {
                address: trim(args.address@),
                steps: step_parts_of(args).0,
                arrival_video_url: trim(args.arrival_video_url@),
            },
            reveal_policy: match args.reveal_policy {
                Some(r) => r,
                None => RevealPolicy::DayBefore16h,
            },
            smart_lock_provider_module_id: if primary == PrimaryMethod::SmartLock {
                provider_from_form_of(args)
            } else {
                None
            },
        },
        texts,
    )
}

/// Configuration and locale texts an `updateConfig` call stores.
pub open spec fn config_and_texts_of(
    args: UpdateConfigArgs,
    coords: (Option<Seq<char>>, Option<Seq<char>>),
) -> (ConfigModel, TextsModel) {
    if args.method is Some {
        structured_of(args)
    } else if args.primary_method is Some {
        host_form_of(args, args.primary_method->0, coords)
    } else {
        legacy_of(args)
    }
}

impl UpdateConfigArgs {
    /// Configuration and locale texts of the arguments. `meeting_coords` is the
    /// validated meeting point of the in-person form section.
    pub fn into_config_and_texts(self, meeting_coords: (Option<String>, Option<String>)) -> (r: (
        ModuleConfig,
        ModuleTexts,
    ))
        ensures
            (r.0.deep_view(), r.1.deep_view()) == config_and_texts_of(self, meeting_coords.deep_view()),
    {
        if self.method.is_some() {
            return self.into_structured();
        }
        match self.primary_method {
            Some(primary) => self.assemble_host_form(primary, meeting_coords),
            None => self.into_legacy(),
        }
    }

    fn base_texts(&self, step_texts: Vec<StepText>) -> (r: ModuleTexts)
        requires
            step_texts.deep_view() == step_parts_of(*self).1,
        ensures
            r.deep_view() == base_texts_of(*self),
    {
        let mut texts = match &self.texts {
            Some(t) => t.duplicate(),
            None => ModuleTexts::default(),
        };
        if texts.steps.len() == 0 {
            texts.steps = step_texts;
        }
        merge_flat_texts(&mut texts, self);
        texts
    }

    fn into_structured(self) -> (r: (ModuleConfig, ModuleTexts))
        requires
            self.method is Some,
        ensures
            (r.0.deep_view(), r.1.deep_view()) == structured_of(self),
    {
        let (step_skeletons, step_texts) = self.resolve_step_parts();
        let texts = self.base_texts(step_texts);
        let mut arrival = match &self.arrival {
            Some(a) => a.duplicate(),
            None => ArrivalGuide::default(),
        };
        if arrival.steps.len() == 0 {
            arrival.steps = step_skeletons;
        }
        if blank(arrival.address.as_str()) && !blank(self.address.as_str()) {
            arrival.address = trimmed_owned(self.address.as_str());
        }
        if blank(arrival.arrival_video_url.as_str()) && !blank(self.arrival_video_url.as_str()) {
            arrival.arrival_video_url = trimmed_owned(self.arrival_video_url.as_str());
        }
        let ghost args = self;
        let raw = RawConfig {
            primary_method: self.primary_method,
            method: self.method,
            building_access: self.building_access,
            parking: self.parking,
            arrival: Some(arrival),
            reveal_policy: self.reveal_policy,
            smart_lock_provider_module_id: self.smart_lock_provider_module_id,
            steps: Vec::new(),
            steps_json: String::new(),
            parking_map_url: self.parking_map_url,
            arrival_video_url: self.arrival_video_url,
            global_note: String::new(),
            address: self.address,
            gate_code: self.gate_code,
            keybox_code: self.keybox_code,
            parking_info: String::new(),
        };
        assert(raw.deep_view() =~= structured_raw(args));
        (config_from_update_parts(raw), texts)
    }

    fn into_legacy(self) -> (r: (ModuleConfig, ModuleTexts))
        ensures
            (r.0.deep_view(), r.1.deep_view()) == legacy_of(self),
    {
        let (step_skeletons, step_texts) = self.resolve_step_parts();
        let mut texts = ModuleTexts::default();
        texts.steps = step_texts;
        merge_flat_texts(&mut texts, &self);
        let mut raw_steps: Vec<RawStep> = Vec::new();
        let mut i: usize = 0;
        while i < step_skeletons.len()
            invariant
                i <= step_skeletons@.len(),
                raw_steps.deep_view() == step_skeletons.deep_view().subrange(0, i as int),
            decreases step_skeletons.len() - i,
        {
            let ghost before = raw_steps.deep_view();
            let s = &step_skeletons[i];
            let x = RawStep { id: s.id.clone(), kind: clone_opt(&s.kind) };
            raw_steps.push(x);
            assert(raw_steps.deep_view() =~= before.push(step_skeletons.deep_view()[i as int]));
            assert(step_skeletons.deep_view().subrange(0, i + 1) =~= before.push(
                step_skeletons.deep_view()[i as int],
            ));
            i = i + 1;
        }
        assert(step_skeletons.deep_view().subrange(0, step_skeletons@.len() as int)
            =~= step_skeletons.deep_view());
        let ghost args = self;
        let raw = RawConfig {
            primary_method: None,
            method: None,
            building_access: None,
            parking: None,
            arrival: None,
            reveal_policy: self.reveal_policy,
            smart_lock_provider_module_id: self.smart_lock_provider_module_id,
            steps: raw_steps,
            steps_json: String::new(),
            parking_map_url: self.parking_map_url,
            arrival_video_url: self.arrival_video_url,
            global_note: String::new(),
            address: self.address,
            gate_code: self.gate_code,
            keybox_code: self.keybox_code,
            parking_info: self.parking_info,
        };
        assert(raw.deep_view() =~= legacy_raw(args));
        (config_from_update_parts(raw), texts)
    }

    fn assemble_host_form(
        self,
        primary: PrimaryMethod,
        meeting_coords: (Option<String>, Option<String>),
    ) -> (r: (ModuleConfig, ModuleTexts))
        ensures
            (r.0.deep_view(), r.1.deep_view()) == host_form_of(self, primary, meeting_coords.deep_view()),
    {
        let method = assemble_method(&self, primary, meeting_coords);
        let building_access = assemble_building_access(&self);
        let parking = assemble_parking(&self);
        let (step_skeletons, step_texts) = self.resolve_step_parts();
        let arrival = ArrivalGuide {
            address: trimmed_owned(self.address.as_str()),
            steps: step_skeletons,
            arrival_video_url: trimmed_owned(self.arrival_video_url.as_str()),
        };
        let provider = if primary == PrimaryMethod::SmartLock {
            resolve_smart_lock_provider(&self)
        } else {
            None
        };
        let mut texts = self.base_texts(step_texts);
        if texts.method_instructions.is_none() {
            texts.method_instructions = method_instructions_from_form(&self, primary);
        }
        let mut config = ModuleConfig {
            primary_method: primary,
            method,
            building_access,
            parking,
            arrival,
            reveal_policy: match self.reveal_policy {
                Some(r) => r,
                None => RevealPolicy::DayBefore16h,
            },
            smart_lock_provider_module_id: provider,
        };
        config.sync_primary_method();
        (config, texts)
    }
}

/// Document the structured shape hands to the migration.
pub open spec fn structured_raw(args: UpdateConfigArgs) -> RawModel {
    let a0 = match args.arrival {
        Some(a) => a.deep_view(),
        None => empty_arrival(),
    };
    RawModel {
        primary_method: args.primary_method,
        method: args.method.deep_view(),
        building_access: args.building_access.deep_view(),
        parking: args.parking.deep_view(),
        arrival: Some(
            ArrivalModel {
                steps: if a0.steps.len() == 0 {
                    step_parts_of(args).0
                } else {
                    a0.steps
                },
                address: if is_blank(a0.address) && !is_blank(args.address@) {
                    trim(args.address@)
                } else {
                    a0.address
                },
                arrival_video_url: if is_blank(a0.arrival_video_url) && !is_blank(
                    args.arrival_video_url@,
                ) {
                    trim(args.arrival_video_url@)
                } else {
                    a0.arrival_video_url
                },
            },
        ),
        reveal_policy: args.reveal_policy,
        smart_lock_provider_module_id: args.smart_lock_provider_module_id.deep_view(),
        steps: Seq::empty(),
        steps_json: Seq::empty(),
        parking_map_url: args.parking_map_url@,
        arrival_video_url: args.arrival_video_url@,
        global_note: Seq::empty(),
        address: args.address@,
        gate_code: args.gate_code@,
        keybox_code: args.keybox_code@,
        parking_info: Seq::empty(),
    }
}

/// Document the legacy shape hands to the migration.
pub open spec fn legacy_raw(args: UpdateConfigArgs) -> RawModel {
    RawModel {
        primary_method: None,
        method: None,
        building_access: None,
        parking: None,
        arrival: None,
        reveal_policy: args.reveal_policy,
        smart_lock_provider_module_id: args.smart_lock_provider_module_id.deep_view(),
        steps: step_parts_of(args).0,
        steps_json: Seq::empty(),
        parking_map_url: args.parking_map_url@,
        arrival_video_url: args.arrival_video_url@,
        global_note: Seq::empty(),
        address: args.address@,
        gate_code: args.gate_code@,
        keybox_code: args.keybox_code@,
        parking_info: args.parking_info@,
    }
}

// ── Change detection ────────────────────────────────────────────────────────

/// An optional code as text (empty when absent), trimmed.
pub open spec fn code_text(o: Option<Seq<char>>) -> Seq<char> {
    match o {
        Some(s) => trim(s),
        None => Seq::empty(),
    }
}

/// Parking code of the configuration, if any.
pub open spec fn parking_code_of(c: ConfigModel) -> Option<Seq<char>> {
    match c.parking {
        Some(p) => p.code,
        None => None,
    }
}

/// `keybox|gate|smart-lock|parking` codes, each trimmed.
pub open spec fn fingerprint_of(c: ConfigModel) -> Seq<char> {
    code_text(keybox_code_of(c)) + "|"@ + code_text(gate_code_of(c)) + "|"@ + code_text(
        smart_lock_code_of(c),
    ) + "|"@ + code_text(parking_code_of(c))
}

fn append_code(out: &mut String, code: Option<&str>)
    ensures
        final(out)@ == old(out)@ + code_text(crate::access_guide::config::opt_view(code)),
{
    match code {
        Some(c) => out.append(trim_str(c)),
        None => {
            proof {
                reveal_strlit("");
            }
            out.append("")
        },
    }
    assert(final(out)@ =~= old(out)@ + code_text(crate::access_guide::config::opt_view(code)));
}

/// Stable snapshot of the guest-facing entry codes (keybox, door/gate, smart
/// lock, parking), used to detect a change of code.
pub fn entry_codes_fingerprint(config: &ModuleConfig) -> (r: String)
    ensures
        r@ == fingerprint_of(config.deep_view()),
{
    let mut out = String::new();
    append_code(&mut out, config.keybox_code());
    out.append("|");
    append_code(&mut out, config.gate_code());
    out.append("|");
    append_code(&mut out, config.smart_lock_manual_code());
    out.append("|");
    let parking = match &config.parking {
        Some(p) => match &p.code {
            Some(c) => Some(c.as_str()),
            None => None,
        },
        None => None,
    };
    append_code(&mut out, parking);
    assert(out@ =~= fingerprint_of(config.deep_view()));
    out
}

/// Whether saving `config` over `previous` changes a guest-facing entry code,
/// which is when the guests are sent the new code.
pub fn entry_codes_changed(previous: &ModuleConfig, config: &ModuleConfig) -> (r: bool)
    ensures
        r == (fingerprint_of(previous.deep_view()) != fingerprint_of(config.deep_view())),
{
    let before = entry_codes_fingerprint(previous);
    let after = entry_codes_fingerprint(config);
    !str_eq(before.as_str(), after.as_str())
}

/// A text without the `|` separator.
pub open spec fn no_separator(s: Seq<char>) -> bool {
    forall|i: int| 0 <= i < s.len() ==> s[i] != '|'
}

/// Splitting at the first separator: a prefix without `|` is determined by
/// the whole text.
proof fn lemma_split_at_separator(x: Seq<char>, y: Seq<char>, u: Seq<char>, v: Seq<char>)
    requires
        no_separator(x),
        no_separator(u),
        x + "|"@ + y == u + "|"@ + v,
    ensures
        x == u,
        y == v,
{
    reveal_strlit("|");
    let l = x + "|"@ + y;
    let m = u + "|"@ + v;
    if x.len() < u.len() {
        assert(l[x.len() as int] == '|');
        assert(m[x.len() as int] == u[x.len() as int]);
    } else if u.len() < x.len() {
        assert(m[u.len() as int] == '|');
        assert(l[u.len() as int] == x[u.len() as int]);
    }
    assert(x =~= l.subrange(0, x.len() as int));
    assert(u =~= m.subrange(0, u.len() as int));
    assert(y =~= l.subrange(x.len() as int + 1, l.len() as int));
    assert(v =~= m.subrange(u.len() as int + 1, m.len() as int));
}

/// A change of entry code is always detected: when no code holds a `|`, the
/// snapshots of two configurations differ exactly when their keybox, door,
/// smart-lock or parking code (trimmed) differs.
pub proof fn lemma_code_change_detected(a: ConfigModel, b: ConfigModel)
    requires
        no_separator(code_text(keybox_code_of(a))),
        no_separator(code_text(gate_code_of(a))),
        no_separator(code_text(smart_lock_code_of(a))),
        no_separator(code_text(keybox_code_of(b))),
        no_separator(code_text(gate_code_of(b))),
        no_separator(code_text(smart_lock_code_of(b))),
    ensures
        (fingerprint_of(a) != fingerprint_of(b)) <==> (
            code_text(keybox_code_of(a)) != code_text(keybox_code_of(b))
            || code_text(gate_code_of(a)) != code_text(gate_code_of(b))
            || code_text(smart_lock_code_of(a)) != code_text(smart_lock_code_of(b))
            || code_text(parking_code_of(a)) != code_text(parking_code_of(b))
        ),
{
    let (a1, a2, a3, a4) = (
        code_text(keybox_code_of(a)),
        code_text(gate_code_of(a)),
        code_text(smart_lock_code_of(a)),
        code_text(parking_code_of(a)),
    );
    let (b1, b2, b3, b4) = (
        code_text(keybox_code_of(b)),
        code_text(gate_code_of(b)),
        code_text(smart_lock_code_of(b)),
        code_text(parking_code_of(b)),
    );
    if fingerprint_of(a) == fingerprint_of(b) {
        let sep = "|"@;
        assert(fingerprint_of(a) =~= a1 + sep + ((a2 + sep + (a3 + sep + a4))));
        assert(fingerprint_of(b) =~= b1 + sep + ((b2 + sep + (b3 + sep + b4))));
        lemma_split_at_separator(a1, a2 + sep + (a3 + sep + a4), b1, b2 + sep + (b3 + sep + b4));
        lemma_split_at_separator(a2, a3 + sep + a4, b2, b3 + sep + b4);
        lemma_split_at_separator(a3, a4, b3, b4);
    }
}

} // verus!
