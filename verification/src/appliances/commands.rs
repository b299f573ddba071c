//! Host commands on one language's payload: save, delete and reorder a
//! device, save the safety notice, replace the whole list from the host
//! form. Each takes the loaded payload and gives the payload to store.

use vstd::prelude::*;

use crate::appliances::codec::status_named;
use crate::appliances::content::{
    device_index, device_position, lemma_device_index, lemma_sorted_contains, sorted_by_order,
    Appliance, ApplianceModel, ApplianceStatus, AppliancesPayload, PayloadModel, MAX_APPLIANCES,
    MAX_FEATURED,
};
use crate::appliances::legacy::{doc_model, paragraph_of, plain_text_to_tiptap, plain_text_tiptap};
use crate::appliances::tiptap::{doc_of, parse_doc};
use crate::ids::{is_hyphenated_uuid, new_uuid};
use crate::json::{json_text, JsonValue};
use crate::text::{
    ascii_lower, blank, chars_of, is_blank, str_eq, to_ascii_lower, trim, trim_str, trimmed_owned,
};

verus! {

/// Why a command was refused.
#[derive(Debug)]
pub enum ApplianceError {
    NameRequired,
    TooManyAppliances,
    TooManyFeatured,
    IdRequired,
    NotFound(String),
}

/// [`ApplianceError`] with texts as sequences.
pub enum ApplianceErrorModel {
    NameRequired,
    TooManyAppliances,
    TooManyFeatured,
    IdRequired,
    NotFound(Seq<char>),
}

impl DeepView for ApplianceError {
    type V = ApplianceErrorModel;

    open spec fn deep_view(&self) -> ApplianceErrorModel {
        match self {
            ApplianceError::NameRequired => ApplianceErrorModel::NameRequired,
            ApplianceError::TooManyAppliances => ApplianceErrorModel::TooManyAppliances,
            ApplianceError::TooManyFeatured => ApplianceErrorModel::TooManyFeatured,
            ApplianceError::IdRequired => ApplianceErrorModel::IdRequired,
            ApplianceError::NotFound(id) => ApplianceErrorModel::NotFound(id@),
        }
    }
}

/// Message of an error.
pub open spec fn error_message(e: ApplianceErrorModel) -> Seq<char> {
    match e {
        ApplianceErrorModel::NameRequired => "appliance name is required"@,
        ApplianceErrorModel::TooManyAppliances => "max 10 appliances allowed"@,
        ApplianceErrorModel::TooManyFeatured => "max 5 featured appliances allowed"@,
        ApplianceErrorModel::IdRequired => "appliance id is required"@,
        ApplianceErrorModel::NotFound(id) => "appliance not found: "@ + id,
    }
}

impl ApplianceError {
    /// The message the host shows.
    pub fn message(&self) -> (r: String)
        ensures
            r@ == error_message(self.deep_view()),
    {
        match self {
            ApplianceError::NameRequired => "appliance name is required".to_owned(),
            ApplianceError::TooManyAppliances => "max 10 appliances allowed".to_owned(),
            ApplianceError::TooManyFeatured => "max 5 featured appliances allowed".to_owned(),
            ApplianceError::IdRequired => "appliance id is required".to_owned(),
            ApplianceError::NotFound(id) => {
                let mut m = "appliance not found: ".to_owned();
                m.append(id.as_str());
                m
            },
        }
    }
}

/// The empty TipTap document text stored for a blank description.
pub open spec fn empty_doc_text() -> Seq<char> {
    "{\"type\":\"doc\",\"content\":[{\"type\":\"paragraph\"}]}"@
}

/// A description as stored: blank gives the empty document, a TipTap
/// document is kept (trimmed), other text becomes one paragraph.
pub open spec fn normalized_description(raw: Seq<char>) -> Seq<char> {
    let t = trim(raw);
    if t.len() == 0 {
        empty_doc_text()
    } else if doc_of(t) is Some {
        t
    } else {
        plain_text_tiptap(raw)
    }
}

/// A description as stored (see [`normalized_description`]).
pub fn normalize_description(raw: &str) -> (r: String)
    ensures
        r@ == normalized_description(raw@),
{
    let trimmed = trim_str(raw);
    if trimmed.unicode_len() == 0 {
        return "{\"type\":\"doc\",\"content\":[{\"type\":\"paragraph\"}]}".to_owned();
    }
    if parse_doc(trimmed).is_some() {
        return trimmed.to_owned();
    }
    plain_text_to_tiptap(raw)
}

/// A text lowercased in ASCII.
pub open spec fn ascii_lowered(s: Seq<char>) -> Seq<char> {
    s.map_values(|c: char| ascii_lower(c))
}

/// A form value read as a flag: `true`; the texts `true`, `1`, `yes`, `on`
/// (trimmed, any ASCII case); the integer 1.
pub open spec fn boolish(v: JsonValue) -> bool {
    match v {
        JsonValue::Bool(b) => b,
        JsonValue::Str(s) => {
            let l = ascii_lowered(trim(s@));
            l == "true"@ || l == "1"@ || l == "yes"@ || l == "on"@
        },
        JsonValue::Number(t) => t@ == "1"@,
        _ => false,
    }
}

/// A form value read as a flag (see [`boolish`]).
pub fn parse_boolish(value: &JsonValue) -> (r: bool)
    ensures
        r == boolish(*value),
{
    match value {
        JsonValue::Bool(b) => *b,
        JsonValue::Str(s) => {
            let c = chars_of(trim_str(s.as_str()));
            let mut lower = String::new();
            let mut i: usize = 0;
            while i < c.len()
                invariant
                    i <= c@.len(),
                    lower@ == ascii_lowered(c@.subrange(0, i as int)),
                decreases c.len() - i,
            {
                crate::text::push_char(&mut lower, to_ascii_lower(c[i]));
                i = i + 1;
                assert(lower@ =~= ascii_lowered(c@.subrange(0, i as int)));
            }
            assert(c@.subrange(0, i as int) =~= c@);
            let l = lower.as_str();
            str_eq(l, "true") || str_eq(l, "1") || str_eq(l, "yes") || str_eq(l, "on")
        },
        JsonValue::Number(t) => str_eq(t.as_str(), "1"),
        _ => false,
    }
}

/// Arguments of the save command.
#[derive(Debug)]
pub struct SaveApplianceArgs {
    pub id: Option<String>,
    pub name: String,
    pub emoji: String,
    pub description: String,
    pub featured: bool,
    pub order: Option<i32>,
    pub location: String,
    pub manual_url: String,
    pub safety_note: String,
    pub status: ApplianceStatus,
}

/// [`SaveApplianceArgs`] with texts as sequences.
pub struct SaveArgsModel {
    pub id: Option<Seq<char>>,
    pub name: Seq<char>,
    pub emoji: Seq<char>,
    pub description: Seq<char>,
    pub featured: bool,
    pub order: Option<i32>,
    pub location: Seq<char>,
    pub manual_url: Seq<char>,
    pub safety_note: Seq<char>,
    pub status: ApplianceStatus,
}

impl DeepView for SaveApplianceArgs {
    type V = SaveArgsModel;

    open spec fn deep_view(&self) -> SaveArgsModel {
        SaveArgsModel {
            id: self.id.deep_view(),
            name: self.name@,
            emoji: self.emoji@,
            description: self.description@,
            featured: self.featured,
            order: self.order,
            location: self.location@,
            manual_url: self.manual_url@,
            safety_note: self.safety_note@,
            status: self.status,
        }
    }
}

/// The save creates a device: no id, a blank id, or an id no device has.
pub open spec fn is_create(d: Seq<ApplianceModel>, id: Option<Seq<char>>) -> bool {
    match id {
        Some(i) => is_blank(i) || device_index(d, i) is None,
        None => true,
    }
}

/// The id the save uses when one is given (trimmed, non-blank).
pub open spec fn given_id(id: Option<Seq<char>>) -> Option<Seq<char>> {
    match id {
        Some(i) => if is_blank(i) {
            None
        } else {
            Some(trim(i))
        },
        None => None,
    }
}

/// Largest `order` of the devices.
pub open spec fn max_order(d: Seq<ApplianceModel>) -> Option<i32>
    decreases d.len(),
{
    if d.len() == 0 {
        None
    } else {
        match max_order(d.drop_last()) {
            Some(m) => Some(if d.last().order > m {
                d.last().order
            } else {
                m
            }),
            None => Some(d.last().order),
        }
    }
}

/// Order of the saved device: the given one, else one past the largest,
/// else 0.
pub open spec fn save_order(d: Seq<ApplianceModel>, order: Option<i32>) -> int {
    match order {
        Some(o) => o as int,
        None => match max_order(d) {
            Some(m) => m + 1,
            None => 0,
        },
    }
}

/// Featured, not hidden, and not the device being saved.
pub open spec fn other_featured(id: Seq<char>) -> spec_fn(ApplianceModel) -> bool {
    |x: ApplianceModel| x.id != id && x.featured && x.status != ApplianceStatus::Hidden
}

/// The device a save writes.
pub open spec fn saved_device(a: SaveArgsModel, id: Seq<char>, order: int) -> ApplianceModel {
    ApplianceModel {
        id: id,
        name: trim(a.name),
        emoji: trim(a.emoji),
        description: normalized_description(a.description),
        featured: a.featured,
        order: order as i32,
        location: trim(a.location),
        manual_url: trim(a.manual_url),
        safety_note: trim(a.safety_note),
        status: a.status,
    }
}

/// The list with the device replacing the first one with its id, or
/// appended.
pub open spec fn upserted(d: Seq<ApplianceModel>, a: ApplianceModel) -> Seq<ApplianceModel> {
    match device_index(d, a.id) {
        Some(i) => d.update(i, a),
        None => d.push(a),
    }
}

/// Outcome of a save with the id `id`: the name is required, a new device
/// must fit under [`MAX_APPLIANCES`], a featured one under [`MAX_FEATURED`]
/// featured others; then the device is upserted and the list ordered.
pub open spec fn save_outcome(p: PayloadModel, a: SaveArgsModel, id: Seq<char>) -> Result<
    (PayloadModel, ApplianceModel),
    ApplianceErrorModel,
> {
    let d = p.devices;
    let next = saved_device(a, id, save_order(d, a.order));
    if is_blank(a.name) {
        Err(ApplianceErrorModel::NameRequired)
    } else if is_create(d, a.id) && d.len() >= 10 {
        Err(ApplianceErrorModel::TooManyAppliances)
    } else if a.featured && d.filter(other_featured(id)).len() >= 5 {
        Err(ApplianceErrorModel::TooManyFeatured)
    } else {
        Ok(
            (
                PayloadModel {
                    devices: sorted_by_order(upserted(d, next)),
                    safety_notice: p.safety_notice,
                },
                next,
            ),
        )
    }
}

/// Model of a save's result.
pub open spec fn save_result_view(r: Result<(AppliancesPayload, Appliance), ApplianceError>) -> Result<
    (PayloadModel, ApplianceModel),
    ApplianceErrorModel,
> {
    match r {
        Ok((p, a)) => Ok((p.deep_view(), a.deep_view())),
        Err(e) => Err(e.deep_view()),
    }
}

/// Largest `order` of the devices.
fn max_order_exec(devices: &Vec<Appliance>) -> (r: Option<i32>)
    ensures
        r == max_order(devices.deep_view()),
{
    let ghost d = devices.deep_view();
    let mut m: Option<i32> = None;
    let mut i: usize = 0;
    while i < devices.len()
        invariant
            i <= devices@.len(),
            d == devices.deep_view(),
            m == max_order(d.subrange(0, i as int)),
        decreases devices.len() - i,
    {
        assert(d.subrange(0, i + 1).drop_last() =~= d.subrange(0, i as int));
        let o = devices[i].order;
        m = match m {
            Some(x) => Some(if o > x { o } else { x }),
            None => Some(o),
        };
        i = i + 1;
    }
    assert(d.subrange(0, i as int) =~= d);
    m
}

/// Devices featured, not hidden, other than `id`.
fn count_other_featured(devices: &Vec<Appliance>, id: &str) -> (r: usize)
    ensures
        r == devices.deep_view().filter(other_featured(id@)).len(),
{
    let ghost d = devices.deep_view();
    let mut n: usize = 0;
    let mut i: usize = 0;
    while i < devices.len()
        invariant
            i <= devices@.len(),
            d == devices.deep_view(),
            n == d.subrange(0, i as int).filter(other_featured(id@)).len(),
            n <= i,
        decreases devices.len() - i,
    {
        proof {
            reveal(Seq::filter);
            assert(d.subrange(0, i + 1).drop_last() =~= d.subrange(0, i as int));
        }
        let a = &devices[i];
        if !str_eq(a.id.as_str(), id) && a.featured && a.status != ApplianceStatus::Hidden {
            n = n + 1;
        }
        i = i + 1;
    }
    assert(d.subrange(0, i as int) =~= d);
    n
}

/// The first check of a save, made before the device list is read: a
/// blank name is refused.
pub fn check_appliance_name(args: &SaveApplianceArgs) -> (r: Result<(), ApplianceError>)
    ensures
        r is Err <==> is_blank(args.name@),
        r is Err ==> r == Err::<(), ApplianceError>(ApplianceError::NameRequired),
{
    if blank(args.name.as_str()) {
        Err(ApplianceError::NameRequired)
    } else {
        Ok(())
    }
}

/// Applies a save with the given id (see [`save_outcome`]).
pub fn save_appliance_with_id(payload: &AppliancesPayload, args: &SaveApplianceArgs, id: String) -> (r: Result<
    (AppliancesPayload, Appliance),
    ApplianceError,
>)
    requires
        args.order is None ==> (max_order(payload.devices.deep_view()) matches Some(m) ==> m < i32::MAX),
    ensures
        save_result_view(r) == save_outcome(payload.deep_view(), args.deep_view(), id@),
{
    let ghost pv = payload.deep_view();
    let ghost av = args.deep_view();
    if blank(args.name.as_str()) {
        return Err(ApplianceError::NameRequired);
    }
    let create = match &args.id {
        Some(given) => blank(given.as_str()) || device_position(&payload.devices, given.as_str()).is_none(),
        None => true,
    };
    if create && payload.devices.len() >= MAX_APPLIANCES {
        return Err(ApplianceError::TooManyAppliances);
    }
    let order: i32 = match args.order {
        Some(o) => o,
        None => match max_order_exec(&payload.devices) {
            Some(m) => m + 1,
            None => 0,
        },
    };
    let next = Appliance {
        id: id.clone(),
        name: trimmed_owned(args.name.as_str()),
        emoji: trimmed_owned(args.emoji.as_str()),
        description: normalize_description(args.description.as_str()),
        featured: args.featured,
        order,
        location: trimmed_owned(args.location.as_str()),
        manual_url: trimmed_owned(args.manual_url.as_str()),
        safety_note: trimmed_owned(args.safety_note.as_str()),
        status: args.status,
    };
    assert(next.deep_view() == saved_device(av, id@, save_order(pv.devices, av.order)));
    if next.featured && count_other_featured(&payload.devices, id.as_str()) >= MAX_FEATURED {
        return Err(ApplianceError::TooManyFeatured);
    }
    let mut out = payload.duplicate();
    let ghost d = out.devices.deep_view();
    match device_position(&out.devices, id.as_str()) {
        Some(i) => {
            out.devices.set(i, next.duplicate());
            assert(out.devices.deep_view() =~= d.update(i as int, next.deep_view()));
        },
        None => {
            out.devices.push(next.duplicate());
            assert(out.devices.deep_view() =~= d.push(next.deep_view()));
        },
    }
    out.sort_by_order();
    Ok((out, next))
}

/// Saves a device: the given id (trimmed) or, when none is given, a fresh
/// UUID (see [`save_outcome`]).
pub fn save_appliance(payload: &AppliancesPayload, args: &SaveApplianceArgs) -> (r: Result<
    (AppliancesPayload, Appliance),
    ApplianceError,
>)
    requires
        args.order is None ==> (max_order(payload.devices.deep_view()) matches Some(m) ==> m < i32::MAX),
    ensures
        given_id(args.id.deep_view()) matches Some(id) ==> save_result_view(r) == save_outcome(
            payload.deep_view(),
            args.deep_view(),
            id,
        ),
        given_id(args.id.deep_view()) is None ==> exists|id: Seq<char>|
            is_hyphenated_uuid(id) && save_result_view(r) == save_outcome(
                payload.deep_view(),
                args.deep_view(),
                id,
            ),
{
    let id = match &args.id {
        Some(given) => if blank(given.as_str()) {
            new_uuid()
        } else {
            trimmed_owned(given.as_str())
        },
        None => new_uuid(),
    };
    save_appliance_with_id(payload, args, id)
}

/// Outcome of deleting the devices with the id (trimmed).
pub open spec fn delete_outcome(p: PayloadModel, id: Seq<char>) -> Result<PayloadModel, ApplianceErrorModel> {
    let t = trim(id);
    if t.len() == 0 {
        Err(ApplianceErrorModel::IdRequired)
    } else if device_index(p.devices, t) is None {
        Err(ApplianceErrorModel::NotFound(t))
    } else {
        Ok(
            PayloadModel {
                devices: p.devices.filter(|a: ApplianceModel| a.id != t),
                safety_notice: p.safety_notice,
            },
        )
    }
}

/// Model of a result holding a payload.
pub open spec fn payload_result_view(r: Result<AppliancesPayload, ApplianceError>) -> Result<
    PayloadModel,
    ApplianceErrorModel,
> {
    match r {
        Ok(p) => Ok(p.deep_view()),
        Err(e) => Err(e.deep_view()),
    }
}

/// Deletes every device with the id (trimmed); refused when the id is blank
/// or no device has it.
pub fn delete_appliance(payload: &AppliancesPayload, id: &str) -> (r: Result<AppliancesPayload, ApplianceError>)
    ensures
        payload_result_view(r) == delete_outcome(payload.deep_view(), id@),
{
    let t = trim_str(id);
    if t.unicode_len() == 0 {
        return Err(ApplianceError::IdRequired);
    }
    if device_position(&payload.devices, t).is_none() {
        return Err(ApplianceError::NotFound(t.to_owned()));
    }
    let ghost d = payload.devices.deep_view();
    let ghost keep = |a: ApplianceModel| a.id != t@;
    let mut kept: Vec<Appliance> = Vec::new();
    let mut i: usize = 0;
    while i < payload.devices.len()
        invariant
            i <= payload.devices@.len(),
            d == payload.devices.deep_view(),
            keep == (|a: ApplianceModel| a.id != t@),
            kept.deep_view() == d.subrange(0, i as int).filter(keep),
        decreases payload.devices.len() - i,
    {
        proof {
            reveal(Seq::filter);
            assert(d.subrange(0, i + 1).drop_last() =~= d.subrange(0, i as int));
        }
        if !str_eq(payload.devices[i].id.as_str(), t) {
            let ghost before = kept.deep_view();
            kept.push(payload.devices[i].duplicate());
            assert(kept.deep_view() =~= before.push(d[i as int]));
        }
        i = i + 1;
    }
    assert(d.subrange(0, i as int) =~= d);
    Ok(AppliancesPayload { devices: kept, safety_notice: payload.safety_notice.clone() })
}

/// Orders set from the host's list: the first device with the `k`-th id
/// gets order `k` (a later repeat of an id wins).
pub open spec fn reordered(d: Seq<ApplianceModel>, ids: Seq<Seq<char>>) -> Seq<ApplianceModel>
    decreases ids.len(),
{
    if ids.len() == 0 {
        d
    } else {
        let prev = reordered(d, ids.drop_last());
        let k = ids.len() - 1;
        match device_index(prev, ids.last()) {
            Some(i) => prev.update(
                i,
                ApplianceModel {
                    id: prev[i].id,
                    name: prev[i].name,
                    emoji: prev[i].emoji,
                    description: prev[i].description,
                    featured: prev[i].featured,
                    order: k as i32,
                    location: prev[i].location,
                    manual_url: prev[i].manual_url,
                    safety_note: prev[i].safety_note,
                    status: prev[i].status,
                },
            ),
            None => prev,
        }
    }
}

/// Sets each listed device's order to its position in `ordered_ids`, then
/// orders the list.
pub fn reorder_appliances(payload: &AppliancesPayload, ordered_ids: &Vec<String>) -> (r: AppliancesPayload)
    ensures
        r.deep_view() == (PayloadModel {
            devices: sorted_by_order(reordered(payload.devices.deep_view(), ordered_ids.deep_view())),
            safety_notice: payload.safety_notice@,
        }),
{
    let mut out = payload.duplicate();
    let ghost d0 = payload.devices.deep_view();
    let mut k: usize = 0;
    while k < ordered_ids.len()
        invariant
            k <= ordered_ids@.len(),
            out.safety_notice@ == payload.safety_notice@,
            out.devices.deep_view() == reordered(d0, ordered_ids.deep_view().subrange(0, k as int)),
        decreases ordered_ids.len() - k,
    {
        assert(ordered_ids.deep_view().subrange(0, k + 1).drop_last() =~= ordered_ids.deep_view().subrange(
            0,
            k as int,
        ));
        let ghost prev = out.devices.deep_view();
        match device_position(&out.devices, ordered_ids[k].as_str()) {
            Some(i) => {
                let mut a = out.devices[i].duplicate();
                a.order = k as i32;
                out.devices.set(i, a);
                assert(out.devices.deep_view() =~= reordered(d0, ordered_ids.deep_view().subrange(0, k + 1)));
            },
            None => {},
        }
        k = k + 1;
    }
    assert(ordered_ids.deep_view().subrange(0, k as int) =~= ordered_ids.deep_view());
    out.sort_by_order();
    out
}

/// Stores the safety notice (normalised as a description).
pub fn save_safety_notice(payload: &AppliancesPayload, notice: &str) -> (r: AppliancesPayload)
    ensures
        r.deep_view() == (PayloadModel {
            devices: payload.devices.deep_view(),
            safety_notice: normalized_description(notice@),
        }),
{
    let mut out = payload.duplicate();
    out.safety_notice = normalize_description(notice);
    out
}

/// One device slot of the host form.
#[derive(Debug)]
pub struct ReplaceDeviceSlot {
    pub id: String,
    pub name: String,
    pub emoji: String,
    pub description: String,
    pub featured: JsonValue,
    pub location: String,
    pub manual_url: String,
    pub status: String,
}

/// The host form: the notice and every device slot.
#[derive(Debug)]
pub struct ReplaceDevicesArgs {
    pub safety_notice: String,
    pub devices: Vec<ReplaceDeviceSlot>,
}

/// A slot's status: `hidden` in any ASCII case (trimmed) hides the device.
pub open spec fn slot_status(s: Seq<char>) -> ApplianceStatus {
    if ascii_lowered(trim(s)) == "hidden"@ {
        ApplianceStatus::Hidden
    } else {
        ApplianceStatus::Active
    }
}

/// The device a named slot at `index` becomes, with its id.
pub open spec fn slot_device(s: ReplaceDeviceSlot, index: int, id: Seq<char>) -> ApplianceModel {
    ApplianceModel {
        id: id,
        name: trim(s.name@),
        emoji: trim(s.emoji@),
        description: normalized_description(s.description@),
        featured: boolish(s.featured),
        order: index as i32,
        location: trim(s.location@),
        manual_url: trim(s.manual_url@),
        safety_note: Seq::empty(),
        status: slot_status(s.status@),
    }
}

/// The id of a slot: its own (trimmed), or the fresh one given for it.
pub open spec fn slot_id(s: ReplaceDeviceSlot, fresh: Seq<char>) -> Seq<char> {
    if is_blank(s.id@) {
        fresh
    } else {
        trim(s.id@)
    }
}

/// Devices of the named slots, in slot order, each slot with its own id or
/// the fresh one given at its position; `None` once more than
/// [`MAX_APPLIANCES`] slots are named.
pub open spec fn slot_devices(slots: Seq<ReplaceDeviceSlot>, fresh: Seq<Seq<char>>) -> Option<Seq<ApplianceModel>>
    decreases slots.len(),
{
    if slots.len() == 0 {
        Some(Seq::empty())
    } else {
        let k = slots.len() - 1;
        match slot_devices(slots.drop_last(), fresh.drop_last()) {
            Some(prev) => if is_blank(slots.last().name@) {
                Some(prev)
            } else if prev.len() >= 10 {
                None
            } else {
                Some(prev.push(slot_device(slots.last(), k, slot_id(slots.last(), fresh.last()))))
            },
            None => None,
        }
    }
}

/// Featured, not hidden.
pub open spec fn featured_shown() -> spec_fn(ApplianceModel) -> bool {
    |a: ApplianceModel| a.featured && a.status != ApplianceStatus::Hidden
}

/// Outcome of building the list from the form with the given fresh ids.
pub open spec fn replacement_outcome(slots: Seq<ReplaceDeviceSlot>, fresh: Seq<Seq<char>>) -> Result<
    Seq<ApplianceModel>,
    ApplianceErrorModel,
> {
    match slot_devices(slots, fresh) {
        None => Err(ApplianceErrorModel::TooManyAppliances),
        Some(d) => if d.filter(featured_shown()).len() > 5 {
            Err(ApplianceErrorModel::TooManyFeatured)
        } else {
            Ok(d)
        },
    }
}

/// Fresh ids fit for the slots: one per slot, a UUID wherever the slot has
/// no id of its own.
pub open spec fn fresh_ids_fit(slots: Seq<ReplaceDeviceSlot>, fresh: Seq<Seq<char>>) -> bool {
    &&& fresh.len() == slots.len()
    &&& forall|k: int| 0 <= k < fresh.len() && is_blank(slots[k].id@) ==> is_hyphenated_uuid(#[trigger] fresh[k])
}

/// The all-zero UUID text.
pub open spec fn nil_uuid() -> Seq<char> {
    Seq::new(36, |i: int| if i == 8 || i == 13 || i == 18 || i == 23 { '-' } else { '0' })
}

/// Model of a result holding a device list.
pub open spec fn devices_result_view(r: Result<Vec<Appliance>, ApplianceError>) -> Result<
    Seq<ApplianceModel>,
    ApplianceErrorModel,
> {
    match r {
        Ok(d) => Ok(d.deep_view()),
        Err(e) => Err(e.deep_view()),
    }
}

/// Once the list overflows, later slots do not matter.
proof fn lemma_slot_devices_none(slots: Seq<ReplaceDeviceSlot>, fresh: Seq<Seq<char>>, i: int)
    requires
        0 <= i <= slots.len(),
        fresh.len() == slots.len(),
        slot_devices(slots.subrange(0, i), fresh.subrange(0, i)) is None,
    ensures
        slot_devices(slots, fresh) is None,
    decreases slots.len() - i,
{
    if i < slots.len() {
        let s2 = slots.subrange(0, i + 1);
        let f2 = fresh.subrange(0, i + 1);
        assert(s2.drop_last() =~= slots.subrange(0, i));
        assert(f2.drop_last() =~= fresh.subrange(0, i));
        lemma_slot_devices_none(slots, fresh, i + 1);
    } else {
        assert(slots.subrange(0, i) =~= slots);
        assert(fresh.subrange(0, i) =~= fresh);
    }
}

fn slot_status_exec(s: &str) -> (r: ApplianceStatus)
    ensures
        r == slot_status(s@),
{
    let c = chars_of(trim_str(s));
    let mut lower = String::new();
    let mut i: usize = 0;
    while i < c.len()
        invariant
            i <= c@.len(),
            lower@ == ascii_lowered(c@.subrange(0, i as int)),
        decreases c.len() - i,
    {
        crate::text::push_char(&mut lower, to_ascii_lower(c[i]));
        i = i + 1;
        assert(lower@ =~= ascii_lowered(c@.subrange(0, i as int)));
    }
    assert(c@.subrange(0, i as int) =~= c@);
    if str_eq(lower.as_str(), "hidden") {
        ApplianceStatus::Hidden
    } else {
        ApplianceStatus::Active
    }
}

/// Builds the device list of the host form: blank-named slots dropped,
/// order from the slot position, a fresh UUID for a slot without id; at most
/// [`MAX_APPLIANCES`] devices and [`MAX_FEATURED`] featured shown ones.
pub fn build_replacement(args: &ReplaceDevicesArgs) -> (r: Result<Vec<Appliance>, ApplianceError>)
    ensures
        exists|fresh: Seq<Seq<char>>|
            fresh_ids_fit(args.devices@, fresh) && devices_result_view(r) == replacement_outcome(
                args.devices@,
                fresh,
            ),
{
    let ghost slots = args.devices@;
    let ghost mut fresh: Seq<Seq<char>> = Seq::empty();
    let mut next: Vec<Appliance> = Vec::new();
    let mut index: usize = 0;
    assert(slots.subrange(0, 0) =~= Seq::<ReplaceDeviceSlot>::empty());
    while index < args.devices.len()
        invariant
            index <= slots.len(),
            slots == args.devices@,
            fresh_ids_fit(slots.subrange(0, index as int), fresh),
            slot_devices(slots.subrange(0, index as int), fresh) == Some(next.deep_view()),
            next@.len() <= 10,
        decreases args.devices.len() - index,
    {
        let slot = &args.devices[index];
        let ghost prev_fresh = fresh;
        assert(slots.subrange(0, index + 1).drop_last() =~= slots.subrange(0, index as int));
        if blank(slot.name.as_str()) {
            proof {
                fresh = fresh.push(nil_uuid());
                assert(fresh.drop_last() =~= prev_fresh);
            }
        } else {
            if next.len() >= MAX_APPLIANCES {
                proof {
                    fresh = fresh.push(nil_uuid());
                    assert(fresh.drop_last() =~= prev_fresh);
                    let rest = Seq::new((slots.len() - index - 1) as nat, |k: int| nil_uuid());
                    let full = fresh + rest;
                    assert(full.subrange(0, index + 1) =~= fresh);
                    lemma_slot_devices_none(slots, full, index + 1);
                    assert(fresh_ids_fit(slots, full));
                }
                return Err(ApplianceError::TooManyAppliances);
            }
            let id = if blank(slot.id.as_str()) {
                let u = new_uuid();
                proof {
                    fresh = fresh.push(u@);
                }
                u
            } else {
                proof {
                    fresh = fresh.push(nil_uuid());
                }
                trimmed_owned(slot.id.as_str())
            };
            assert(fresh.drop_last() =~= prev_fresh);
            let a = Appliance {
                id,
                name: trimmed_owned(slot.name.as_str()),
                emoji: trimmed_owned(slot.emoji.as_str()),
                description: normalize_description(slot.description.as_str()),
                featured: parse_boolish(&slot.featured),
                order: index as i32,
                location: trimmed_owned(slot.location.as_str()),
                manual_url: trimmed_owned(slot.manual_url.as_str()),
                safety_note: String::new(),
                status: slot_status_exec(slot.status.as_str()),
            };
            let ghost before = next.deep_view();
            next.push(a);
            assert(next.deep_view() =~= before.push(a.deep_view()));
        }
        index = index + 1;
    }
    assert(slots.subrange(0, index as int) =~= slots);
    let mut shown: usize = 0;
    let ghost d = next.deep_view();
    let mut i: usize = 0;
    while i < next.len()
        invariant
            i <= next@.len(),
            d == next.deep_view(),
            shown == d.subrange(0, i as int).filter(featured_shown()).len(),
            shown <= i,
        decreases next.len() - i,
    {
        proof {
            reveal(Seq::filter);
            assert(d.subrange(0, i + 1).drop_last() =~= d.subrange(0, i as int));
        }
        if next[i].featured && next[i].status != ApplianceStatus::Hidden {
            shown = shown + 1;
        }
        i = i + 1;
    }
    assert(d.subrange(0, i as int) =~= d);
    if shown > MAX_FEATURED {
        return Err(ApplianceError::TooManyFeatured);
    }
    Ok(next)
}

/// The payload the host form stores: the notice normalised, the built list
/// ordered by `order`.
pub fn apply_replacement(payload: &AppliancesPayload, notice: &str, devices: Vec<Appliance>) -> (r: AppliancesPayload)
    ensures
        r.deep_view() == (PayloadModel {
            devices: sorted_by_order(devices.deep_view()),
            safety_notice: normalized_description(notice@),
        }),
{
    let mut out = AppliancesPayload { devices, safety_notice: normalize_description(notice) };
    out.sort_by_order();
    out
}

/// The payload the host form replaces the stored one with: the list built
/// from the slots (see [`build_replacement`]) ordered by `order`, and the
/// normalised safety notice; or the limit that the slots break.
pub fn replace_devices(args: &ReplaceDevicesArgs) -> (r: Result<AppliancesPayload, ApplianceError>)
    ensures
        exists|fresh: Seq<Seq<char>>|
            fresh_ids_fit(args.devices@, fresh) && match replacement_outcome(args.devices@, fresh) {
                Ok(d) => r matches Ok(p) && p.deep_view() == (PayloadModel {
                    devices: sorted_by_order(d),
                    safety_notice: normalized_description(args.safety_notice@),
                }),
                Err(e) => r matches Err(x) && x.deep_view() == e,
            },
{
    match build_replacement(args) {
        Ok(devices) => {
            let empty = AppliancesPayload { devices: Vec::new(), safety_notice: String::new() };
            Ok(apply_replacement(&empty, args.safety_notice.as_str(), devices))
        },
        Err(e) => Err(e),
    }
}

/// A successful save stores the saved device and keeps every other device
/// whose id differs.
pub proof fn lemma_saved_device_stored(p: PayloadModel, a: SaveArgsModel, id: Seq<char>)
    requires
        p.devices.len() < usize::MAX,
        save_outcome(p, a, id) is Ok,
    ensures
        ({
            let (q, next) = save_outcome(p, a, id)->Ok_0;
            &&& next.id == id
            &&& q.devices.contains(next)
            &&& forall|k: int| #![trigger p.devices[k]]
                0 <= k < p.devices.len() && p.devices[k].id != id ==> q.devices.contains(p.devices[k])
        }),
{
    let d = p.devices;
    let next = saved_device(a, id, save_order(d, a.order));
    let u = upserted(d, next);
    lemma_device_index(d, id);
    let m: int = match device_index(d, id) {
        Some(i) => i,
        None => d.len() as int,
    };
    assert(u[m] == next);
    lemma_sorted_contains(u, m);
    assert forall|k: int| #![trigger p.devices[k]]
        0 <= k < p.devices.len() && p.devices[k].id != id implies sorted_by_order(u).contains(p.devices[k]) by {
        assert(u[k] == d[k]);
        lemma_sorted_contains(u, k);
    }
}

} // verus!
