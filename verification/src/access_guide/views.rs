//! What the guest sees of the access guide, row by row: the booklet card
//! (glance) and the full page (detail). Codes are masked until the reveal
//! instant; the shell turns each row into one widget.

use vstd::prelude::*;

use crate::access_guide::config::{
    building_is_empty, parking_is_empty, resolved_steps_of, BuildingAccess, BuildingAccessModel,
    ConfigModel, MethodFields, MethodModel, ModuleConfig, ParkingLayer, ParkingLayerModel,
    ResolvedStep, ResolvedStepModel,
};
use crate::access_guide::guest::{
    config_has_secret, door_target_key, has_any_secret, kind_key, kind_label, secret_mask,
    staff_kind_key,
};
use crate::access_guide::email::{locked_banner, locked_banner_text, timing_exec, timing_of};
use crate::access_guide::config::{has_content, has_content_of};
use crate::access_guide::texts::{ModuleTexts, TextsModel};
use crate::timed_reveal::{evaluate_reveal, reveal_decision};
use crate::access_guide::config::{DoorCodeTarget, StaffKind};
use crate::text::{blank, is_blank, nonempty_of, nonempty_owned, trim, trim_str};

verus! {

/// What a guest page is built from. Coordinates are not held here: the
/// shell formats the meeting point and builds the coordinate map links.
#[derive(Debug)]
pub struct GuestData {
    pub config: ModuleConfig,
    pub texts: ModuleTexts,
    /// Arrival address (the configured one, else the property's).
    pub address: String,
    pub secrets_revealed: bool,
    /// Message shown while codes are locked.
    pub reveal_locked_message: Option<String>,
    /// The in-person meeting point's coordinates as shown, when it has
    /// non-zero ones.
    pub meeting_coords_label: Option<String>,
    /// A map can be drawn (meeting point or property coordinates known).
    pub has_map: bool,
    /// Map search link of the meeting point, else of the property, when one
    /// of them has non-zero coordinates.
    pub coords_maps_url: Option<String>,
}

/// One row of a guest page, top to bottom.
#[derive(Debug, Clone)]
pub enum AccessRow {
    /// A banner: the host's global note or the locked-codes notice.
    InfoBanner { title: String, message: String },
    /// The static map of the meeting point or the property.
    PropertyMap,
    /// A labelled value (`mono` for coordinates).
    KeyValue { key: String, value: String, mono: bool },
    /// A labelled access code, or its mask while codes are locked.
    Code { key: String, value: String },
    /// A smart-lock command of the provider module: unlock, or fetch the
    /// guest credential.
    SmartLock { provider: String, credential: bool },
    /// Opens the map link.
    OpenMaps { url: String },
    /// The arrival video link.
    Video { url: String },
    /// One arrival step with its kind badge and detail.
    Step { title: String, badge: String, detail: Option<String> },
}

/// [`AccessRow`] with texts as sequences.
pub enum AccessRowModel {
    InfoBanner { title: Seq<char>, message: Seq<char> },
    PropertyMap,
    KeyValue { key: Seq<char>, value: Seq<char>, mono: bool },
    Code { key: Seq<char>, value: Seq<char> },
    SmartLock { provider: Seq<char>, credential: bool },
    OpenMaps { url: Seq<char> },
    Video { url: Seq<char> },
    Step { title: Seq<char>, badge: Seq<char>, detail: Option<Seq<char>> },
}

impl DeepView for AccessRow {
    type V = AccessRowModel;

    open spec fn deep_view(&self) -> AccessRowModel {
        match self {
            AccessRow::InfoBanner { title, message } => AccessRowModel::InfoBanner {
                title: title@,
                message: message@,
            },
            AccessRow::PropertyMap => AccessRowModel::PropertyMap,
            AccessRow::KeyValue { key, value, mono } => AccessRowModel::KeyValue {
                key: key@,
                value: value@,
                mono: *mono,
            },
            AccessRow::Code { key, value } => AccessRowModel::Code { key: key@, value: value@ },
            AccessRow::SmartLock { provider, credential } => AccessRowModel::SmartLock {
                provider: provider@,
                credential: *credential,
            },
            AccessRow::OpenMaps { url } => AccessRowModel::OpenMaps { url: url@ },
            AccessRow::Video { url } => AccessRowModel::Video { url: url@ },
            AccessRow::Step { title, badge, detail } => AccessRowModel::Step {
                title: title@,
                badge: badge@,
                detail: detail.deep_view(),
            },
        }
    }
}

// ── Rows as specifications ──────────────────────────────────────────────────

/// A labelled value.
pub open spec fn kv(key: Seq<char>, value: Seq<char>, mono: bool) -> AccessRowModel {
    AccessRowModel::KeyValue { key, value, mono }
}

/// A text row when the text is not blank (trimmed).
pub open spec fn text_rows(key: Seq<char>, value: Seq<char>) -> Seq<AccessRowModel> {
    if is_blank(value) {
        Seq::empty()
    } else {
        seq![kv(key, trim(value), false)]
    }
}

/// [`text_rows`] of an optional text.
pub open spec fn opt_text_rows(key: Seq<char>, value: Option<Seq<char>>) -> Seq<AccessRowModel> {
    match value {
        Some(v) => text_rows(key, v),
        None => Seq::empty(),
    }
}

/// A code row when the code is not blank: the trimmed code once revealed,
/// the mask before.
pub open spec fn secret_rows(revealed: bool, key: Seq<char>, code: Seq<char>) -> Seq<AccessRowModel> {
    if is_blank(code) {
        Seq::empty()
    } else {
        seq![AccessRowModel::Code { key, value: if revealed { trim(code) } else { secret_mask() } }]
    }
}

/// [`secret_rows`] of an optional code.
pub open spec fn opt_secret_rows(revealed: bool, key: Seq<char>, code: Option<Seq<char>>) -> Seq<AccessRowModel> {
    match code {
        Some(c) => secret_rows(revealed, key, c),
        None => Seq::empty(),
    }
}

/// The method instructions of the texts.
pub open spec fn instruction_rows(t: TextsModel) -> Seq<AccessRowModel> {
    opt_text_rows("i18n:guest.instructions"@, t.method_instructions)
}

/// The trimmed smart-lock provider module, when one is configured.
pub open spec fn provider_of(c: ConfigModel) -> Option<Seq<char>> {
    match c.smart_lock_provider_module_id {
        Some(p) => nonempty_of(p),
        None => None,
    }
}

/// The smart-lock commands: offered with a provider, once codes are revealed.
pub open spec fn smart_lock_rows(c: ConfigModel, revealed: bool) -> Seq<AccessRowModel> {
    match provider_of(c) {
        Some(p) => if revealed {
            seq![
                AccessRowModel::SmartLock { provider: p, credential: false },
                AccessRowModel::SmartLock { provider: p, credential: true },
            ]
        } else {
            Seq::empty()
        },
        None => Seq::empty(),
    }
}

/// The method label row.
pub open spec fn method_label(value: Seq<char>) -> Seq<AccessRowModel> {
    seq![kv("i18n:guest.method"@, value, false)]
}

/// Label key of a door code target.
pub open spec fn door_target_text(t: DoorCodeTarget) -> Seq<char> {
    match t {
        DoorCodeTarget::Gate => "i18n:guest.doorCode.gate"@,
        DoorCodeTarget::Building => "i18n:guest.doorCode.building"@,
        DoorCodeTarget::Apartment => "i18n:guest.doorCode.apartment"@,
    }
}

/// Label key of a staff kind.
pub open spec fn staff_kind_text(k: StaffKind) -> Seq<char> {
    match k {
        StaffKind::Reception => "i18n:guest.buildingStaff.reception"@,
        StaffKind::Caretaker => "i18n:guest.buildingStaff.caretaker"@,
    }
}

/// Rows of the primary method; `detailed` adds the instructions where the
/// booklet card leaves them out.
#[verifier::opaque]
pub open spec fn method_rows(
    c: ConfigModel,
    t: TextsModel,
    revealed: bool,
    coords: Option<Seq<char>>,
    detailed: bool,
) -> Seq<AccessRowModel> {
    match c.method {
        MethodModel::Keybox { location, code } => method_label("i18n:guest.method.keybox"@)
            + text_rows("i18n:guest.keybox.location"@, location)
            + opt_secret_rows(revealed, "i18n:guest.keybox.code"@, code)
            + if detailed { instruction_rows(t) } else { Seq::empty() },
        MethodModel::DoorCode { target, code } => method_label(door_target_text(target))
            + secret_rows(revealed, "i18n:guest.doorCode.code"@, code)
            + if detailed { instruction_rows(t) } else { Seq::empty() },
        MethodModel::SmartLock { manual_code } => method_label("i18n:guest.method.smartLock"@)
            + smart_lock_rows(c, revealed)
            + opt_secret_rows(revealed, "i18n:guest.smartLock.manualCode"@, manual_code)
            + if detailed || provider_of(c) is None { instruction_rows(t) } else { Seq::empty() },
        MethodModel::InPerson { meeting_place, time_hint, contact, .. } => method_label(
            "i18n:guest.method.inPerson"@,
        ) + text_rows("i18n:guest.inPerson.meetingPlace"@, meeting_place) + match coords {
            Some(l) => seq![kv("i18n:guest.inPerson.coords"@, l, true)],
            None => Seq::empty(),
        } + opt_text_rows("i18n:guest.inPerson.timeHint"@, time_hint) + opt_text_rows(
            "i18n:guest.inPerson.contact"@,
            contact,
        ),
        MethodModel::BuildingStaff { staff_kind, desk_location, hours, contact } => method_label(
            staff_kind_text(staff_kind),
        ) + text_rows("i18n:guest.buildingStaff.deskLocation"@, desk_location) + opt_text_rows(
            "i18n:guest.buildingStaff.hours"@,
            hours,
        ) + opt_text_rows("i18n:guest.buildingStaff.contact"@, contact),
        MethodModel::HostGreets { contact_note, eta_hint } => method_label(
            "i18n:guest.method.hostGreets"@,
        ) + opt_text_rows("i18n:guest.hostGreets.etaHint"@, eta_hint) + opt_text_rows(
            "i18n:guest.hostGreets.contactNote"@,
            contact_note,
        ),
        MethodModel::Other => method_label("i18n:guest.method.other"@) + instruction_rows(t),
    }
}

/// Rows of one building layer: its gate code, its intercom, and on the full
/// page the building note; nothing when the layer and the note are empty.
pub open spec fn layer_rows(
    b: BuildingAccessModel,
    note: Option<Seq<char>>,
    revealed: bool,
    detailed: bool,
) -> Seq<AccessRowModel> {
    if building_is_empty(b) && note is None {
        Seq::empty()
    } else {
        opt_secret_rows(revealed, "i18n:guest.building.gateCode"@, b.gate_code) + opt_text_rows(
            "i18n:guest.building.intercom"@,
            b.intercom,
        ) + if detailed {
            match note {
                Some(n) => text_rows("i18n:guest.building.note"@, n),
                None => Seq::empty(),
            }
        } else {
            Seq::empty()
        }
    }
}

/// The building note of the texts, trimmed, when not blank.
pub open spec fn note_of(t: TextsModel) -> Option<Seq<char>> {
    match t.building_note {
        Some(n) => nonempty_of(n),
        None => None,
    }
}

/// Rows of the building access: the configured layer, else an empty one
/// when the texts hold a building note.
#[verifier::opaque]
pub open spec fn building_rows(c: ConfigModel, t: TextsModel, revealed: bool, detailed: bool) -> Seq<AccessRowModel> {
    match c.building_access {
        Some(b) => layer_rows(b, note_of(t), revealed, detailed),
        None => if note_of(t) is Some {
            layer_rows(BuildingAccessModel { gate_code: None, intercom: None }, note_of(t), revealed, detailed)
        } else {
            Seq::empty()
        },
    }
}

/// Rows of the parking: the parking info and the parking code, unless both
/// the layer and the info are empty.
#[verifier::opaque]
pub open spec fn parking_rows(c: ConfigModel, t: TextsModel, revealed: bool) -> Seq<AccessRowModel> {
    let layer_empty = match c.parking {
        Some(p) => parking_is_empty(p),
        None => true,
    };
    if layer_empty && is_blank(t.parking_info) {
        Seq::empty()
    } else {
        text_rows("i18n:guest.parking"@, t.parking_info) + match c.parking {
            Some(p) => opt_secret_rows(revealed, "i18n:guest.parking.code"@, p.code),
            None => Seq::empty(),
        }
    }
}

/// The locked-codes banner: while codes are hidden, some code is set and a
/// message is given.
#[verifier::opaque]
pub open spec fn banner_rows(c: ConfigModel, revealed: bool, message: Option<Seq<char>>) -> Seq<AccessRowModel> {
    if revealed || !config_has_secret(c) {
        Seq::empty()
    } else {
        match message {
            Some(m) => seq![AccessRowModel::InfoBanner { title: "i18n:guest.reveal.lockedTitle"@, message: m }],
            None => Seq::empty(),
        }
    }
}

/// The map link: the parking plan link, else the coordinates' link.
pub open spec fn maps_url_of(c: ConfigModel, coords_url: Option<Seq<char>>) -> Option<Seq<char>> {
    match c.parking {
        Some(p) => if !is_blank(p.map_url) {
            Some(trim(p.map_url))
        } else {
            coords_url
        },
        None => coords_url,
    }
}

/// The model of what a guest page is built from.
pub struct GuestModel {
    pub config: ConfigModel,
    pub texts: TextsModel,
    pub address: Seq<char>,
    pub revealed: bool,
    pub message: Option<Seq<char>>,
    pub coords: Option<Seq<char>>,
    pub has_map: bool,
    pub coords_url: Option<Seq<char>>,
}

impl DeepView for GuestData {
    type V = GuestModel;

    open spec fn deep_view(&self) -> GuestModel {
        GuestModel {
            config: self.config.deep_view(),
            texts: self.texts.deep_view(),
            address: self.address@,
            revealed: self.secrets_revealed,
            message: self.reveal_locked_message.deep_view(),
            coords: self.meeting_coords_label.deep_view(),
            has_map: self.has_map,
            coords_url: self.coords_maps_url.deep_view(),
        }
    }
}

/// The banner, the map and the address.
pub open spec fn core_head(g: GuestModel) -> Seq<AccessRowModel> {
    banner_rows(g.config, g.revealed, g.message)
        + (if g.has_map { seq![AccessRowModel::PropertyMap] } else { Seq::empty() })
        + (if g.address.len() == 0 { Seq::empty() } else { seq![kv("i18n:guest.address"@, g.address, false)] })
}

/// The method, building, parking rows and the map link.
pub open spec fn core_tail(g: GuestModel, detailed: bool) -> Seq<AccessRowModel> {
    method_rows(g.config, g.texts, g.revealed, g.coords, detailed)
        + building_rows(g.config, g.texts, g.revealed, detailed)
        + parking_rows(g.config, g.texts, g.revealed)
        + match maps_url_of(g.config, g.coords_url) {
            Some(u) => seq![AccessRowModel::OpenMaps { url: u }],
            None => Seq::empty(),
        }
}

/// The rows shared by the card and the page, from the banner to the map
/// link.
pub open spec fn core_rows(g: GuestModel, detailed: bool) -> Seq<AccessRowModel> {
    core_head(g) + core_tail(g, detailed)
}

/// The booklet card.
pub open spec fn glance_rows(g: GuestModel) -> Seq<AccessRowModel> {
    core_rows(g, false)
}

/// One arrival step row, when its title is not blank.
pub open spec fn step_rows(s: ResolvedStepModel) -> Seq<AccessRowModel> {
    if is_blank(s.title) {
        Seq::empty()
    } else {
        seq![AccessRowModel::Step {
            title: trim(s.title),
            badge: kind_key(s.kind),
            detail: match s.detail {
                Some(d) => nonempty_of(d),
                None => None,
            },
        }]
    }
}

/// Rows of the arrival steps, in order.
pub open spec fn steps_rows(steps: Seq<ResolvedStepModel>) -> Seq<AccessRowModel>
    decreases steps.len(),
{
    if steps.len() == 0 {
        Seq::empty()
    } else {
        steps_rows(steps.drop_last()) + step_rows(steps.last())
    }
}

/// The video link and the arrival steps.
pub open spec fn arrival_rows(g: GuestModel) -> Seq<AccessRowModel> {
    (if is_blank(g.config.arrival.arrival_video_url) {
        Seq::empty()
    } else {
        seq![AccessRowModel::Video { url: trim(g.config.arrival.arrival_video_url) }]
    }) + steps_rows(resolved_steps_of(g.config, g.texts))
}

/// The full page: the global note, the shared rows, then the arrival.
pub open spec fn detail_rows(g: GuestModel) -> Seq<AccessRowModel> {
    (if is_blank(g.texts.global_note) {
        Seq::empty()
    } else {
        seq![AccessRowModel::InfoBanner { title: "i18n:guest.note.title"@, message: trim(g.texts.global_note) }]
    }) + core_rows(g, true) + arrival_rows(g)
}

// ── Builders ────────────────────────────────────────────────────────────────

fn push_row(rows: &mut Vec<AccessRow>, row: AccessRow)
    ensures
        final(rows).deep_view() == old(rows).deep_view().push(row.deep_view()),
{
    let ghost before = rows.deep_view();
    rows.push(row);
    assert(rows.deep_view() =~= before.push(row.deep_view()));
}

proof fn lemma_push_one(a: Seq<AccessRowModel>, x: AccessRowModel)
    ensures
        a.push(x) == a + seq![x],
{
    assert(a.push(x) =~= a + seq![x]);
}

proof fn lemma_concat_empty(a: Seq<AccessRowModel>)
    ensures
        a + Seq::<AccessRowModel>::empty() == a,
{
    assert(a + Seq::<AccessRowModel>::empty() =~= a);
}

/// Labelled value row.
pub fn kv_row(key: &str, value: &str, mono: bool) -> (r: AccessRow)
    ensures
        r.deep_view() == kv(key@, value@, mono),
{
    AccessRow::KeyValue { key: key.to_owned(), value: value.to_owned(), mono }
}

/// Adds the text row of a value that is not blank.
pub fn push_text_row(rows: &mut Vec<AccessRow>, key: &str, value: &str)
    ensures
        final(rows).deep_view() == old(rows).deep_view() + text_rows(key@, value@),
{
    let t = trim_str(value);
    if t.unicode_len() == 0 {
        proof { lemma_concat_empty(old(rows).deep_view()); }
        return;
    }
    push_row(rows, kv_row(key, t, false));
    proof { lemma_push_one(old(rows).deep_view(), kv(key@, t@, false)); }
}

fn push_opt_text_row(rows: &mut Vec<AccessRow>, key: &str, value: &Option<String>)
    ensures
        final(rows).deep_view() == old(rows).deep_view() + opt_text_rows(key@, value.deep_view()),
{
    match value {
        Some(v) => push_text_row(rows, key, v.as_str()),
        None => proof { lemma_concat_empty(old(rows).deep_view()); },
    }
}

/// Adds the code row of a code that is not blank, masked until revealed.
pub fn push_secret_row(rows: &mut Vec<AccessRow>, revealed: bool, key: &str, code: &str)
    ensures
        final(rows).deep_view() == old(rows).deep_view() + secret_rows(revealed, key@, code@),
{
    let t = trim_str(code);
    if t.unicode_len() == 0 {
        proof { lemma_concat_empty(old(rows).deep_view()); }
        return;
    }
    let shown = if revealed { t.to_owned() } else { "••••••".to_owned() };
    push_row(rows, AccessRow::Code { key: key.to_owned(), value: shown });
    proof {
        lemma_push_one(
            old(rows).deep_view(),
            AccessRowModel::Code { key: key@, value: if revealed { trim(code@) } else { secret_mask() } },
        );
    }
}

fn push_opt_secret_row(rows: &mut Vec<AccessRow>, revealed: bool, key: &str, code: &Option<String>)
    ensures
        final(rows).deep_view() == old(rows).deep_view() + opt_secret_rows(revealed, key@, code.deep_view()),
{
    match code {
        Some(c) => push_secret_row(rows, revealed, key, c.as_str()),
        None => proof { lemma_concat_empty(old(rows).deep_view()); },
    }
}

/// Adds the method instructions of the texts.
pub fn push_method_instructions(rows: &mut Vec<AccessRow>, texts: &ModuleTexts)
    ensures
        final(rows).deep_view() == old(rows).deep_view() + instruction_rows(texts.deep_view()),
{
    push_opt_text_row(rows, "i18n:guest.instructions", &texts.method_instructions);
}

fn provider(config: &ModuleConfig) -> (r: Option<String>)
    ensures
        r.deep_view() == provider_of(config.deep_view()),
{
    match &config.smart_lock_provider_module_id {
        Some(p) => nonempty_owned(p.as_str()),
        None => None,
    }
}

/// Adds the smart-lock commands (see [`smart_lock_rows`]).
pub fn push_smart_lock_ctas(rows: &mut Vec<AccessRow>, config: &ModuleConfig, revealed: bool)
    ensures
        final(rows).deep_view() == old(rows).deep_view() + smart_lock_rows(config.deep_view(), revealed),
{
    match provider(config) {
        Some(p) => if revealed {
            push_row(rows, AccessRow::SmartLock { provider: p.clone(), credential: false });
            push_row(rows, AccessRow::SmartLock { provider: p, credential: true });
            assert(rows.deep_view() =~= old(rows).deep_view() + smart_lock_rows(config.deep_view(), revealed));
        } else {
            proof { lemma_concat_empty(old(rows).deep_view()); }
        },
        None => proof { lemma_concat_empty(old(rows).deep_view()); },
    }
}

fn push_method_label(rows: &mut Vec<AccessRow>, value: &str)
    ensures
        final(rows).deep_view() == old(rows).deep_view() + method_label(value@),
{
    push_row(rows, kv_row("i18n:guest.method", value, false));
    proof { lemma_push_one(old(rows).deep_view(), kv("i18n:guest.method"@, value@, false)); }
}

fn push_detailed_instructions(rows: &mut Vec<AccessRow>, texts: &ModuleTexts, shown: bool)
    ensures
        final(rows).deep_view() == old(rows).deep_view() + if shown {
            instruction_rows(texts.deep_view())
        } else {
            Seq::empty()
        },
{
    if shown {
        push_method_instructions(rows, texts);
    } else {
        proof { lemma_concat_empty(old(rows).deep_view()); }
    }
}

fn push_keybox(rows: &mut Vec<AccessRow>, location: &String, code: &Option<String>, data: &GuestData, detailed: bool)
    ensures
        final(rows).deep_view() == old(rows).deep_view() + (method_label("i18n:guest.method.keybox"@)
            + text_rows("i18n:guest.keybox.location"@, location@)
            + opt_secret_rows(data.secrets_revealed, "i18n:guest.keybox.code"@, code.deep_view())
            + if detailed { instruction_rows(data.texts.deep_view()) } else { Seq::empty() }),
{
    push_method_label(rows, "i18n:guest.method.keybox");
    push_text_row(rows, "i18n:guest.keybox.location", location.as_str());
    push_opt_secret_row(rows, data.secrets_revealed, "i18n:guest.keybox.code", code);
    push_detailed_instructions(rows, &data.texts, detailed);
    assert(rows.deep_view() =~= old(rows).deep_view() + (method_label("i18n:guest.method.keybox"@)
        + text_rows("i18n:guest.keybox.location"@, location@)
        + opt_secret_rows(data.secrets_revealed, "i18n:guest.keybox.code"@, code.deep_view())
        + if detailed { instruction_rows(data.texts.deep_view()) } else { Seq::empty() }));
}

fn push_door_code(rows: &mut Vec<AccessRow>, target: DoorCodeTarget, code: &String, data: &GuestData, detailed: bool)
    ensures
        final(rows).deep_view() == old(rows).deep_view() + (method_label(door_target_text(target))
            + secret_rows(data.secrets_revealed, "i18n:guest.doorCode.code"@, code@)
            + if detailed { instruction_rows(data.texts.deep_view()) } else { Seq::empty() }),
{
    push_method_label(rows, door_target_key(target));
    push_secret_row(rows, data.secrets_revealed, "i18n:guest.doorCode.code", code.as_str());
    push_detailed_instructions(rows, &data.texts, detailed);
    assert(rows.deep_view() =~= old(rows).deep_view() + (method_label(door_target_text(target))
        + secret_rows(data.secrets_revealed, "i18n:guest.doorCode.code"@, code@)
        + if detailed { instruction_rows(data.texts.deep_view()) } else { Seq::empty() }));
}

fn push_smart_lock(rows: &mut Vec<AccessRow>, manual_code: &Option<String>, data: &GuestData, detailed: bool)
    ensures
        final(rows).deep_view() == old(rows).deep_view() + (method_label("i18n:guest.method.smartLock"@)
            + smart_lock_rows(data.config.deep_view(), data.secrets_revealed)
            + opt_secret_rows(data.secrets_revealed, "i18n:guest.smartLock.manualCode"@, manual_code.deep_view())
            + if detailed || provider_of(data.config.deep_view()) is None {
                instruction_rows(data.texts.deep_view())
            } else {
                Seq::empty()
            }),
{
    push_method_label(rows, "i18n:guest.method.smartLock");
    let has_provider = provider(&data.config).is_some();
    push_smart_lock_ctas(rows, &data.config, data.secrets_revealed);
    push_opt_secret_row(rows, data.secrets_revealed, "i18n:guest.smartLock.manualCode", manual_code);
    push_detailed_instructions(rows, &data.texts, detailed || !has_provider);
    assert(rows.deep_view() =~= old(rows).deep_view() + (method_label("i18n:guest.method.smartLock"@)
        + smart_lock_rows(data.config.deep_view(), data.secrets_revealed)
        + opt_secret_rows(data.secrets_revealed, "i18n:guest.smartLock.manualCode"@, manual_code.deep_view())
        + if detailed || provider_of(data.config.deep_view()) is None {
            instruction_rows(data.texts.deep_view())
        } else {
            Seq::empty()
        }));
}

fn push_in_person(
    rows: &mut Vec<AccessRow>,
    meeting_place: &String,
    time_hint: &Option<String>,
    contact: &Option<String>,
    coords: &Option<String>,
)
    ensures
        final(rows).deep_view() == old(rows).deep_view() + (method_label("i18n:guest.method.inPerson"@)
            + text_rows("i18n:guest.inPerson.meetingPlace"@, meeting_place@) + match coords.deep_view() {
            Some(l) => seq![kv("i18n:guest.inPerson.coords"@, l, true)],
            None => Seq::empty(),
        } + opt_text_rows("i18n:guest.inPerson.timeHint"@, time_hint.deep_view()) + opt_text_rows(
            "i18n:guest.inPerson.contact"@,
            contact.deep_view(),
        )),
{
    push_method_label(rows, "i18n:guest.method.inPerson");
    push_text_row(rows, "i18n:guest.inPerson.meetingPlace", meeting_place.as_str());
    let ghost r2 = rows.deep_view();
    match coords {
        Some(l) => {
            push_row(rows, kv_row("i18n:guest.inPerson.coords", l.as_str(), true));
            proof { lemma_push_one(r2, kv("i18n:guest.inPerson.coords"@, l@, true)); }
        },
        None => proof { lemma_concat_empty(r2); },
    }
    push_opt_text_row(rows, "i18n:guest.inPerson.timeHint", time_hint);
    push_opt_text_row(rows, "i18n:guest.inPerson.contact", contact);
    assert(rows.deep_view() =~= old(rows).deep_view() + (method_label("i18n:guest.method.inPerson"@)
        + text_rows("i18n:guest.inPerson.meetingPlace"@, meeting_place@) + match coords.deep_view() {
        Some(l) => seq![kv("i18n:guest.inPerson.coords"@, l, true)],
        None => Seq::empty(),
    } + opt_text_rows("i18n:guest.inPerson.timeHint"@, time_hint.deep_view()) + opt_text_rows(
        "i18n:guest.inPerson.contact"@,
        contact.deep_view(),
    )));
}

fn push_building_staff(
    rows: &mut Vec<AccessRow>,
    staff_kind: StaffKind,
    desk_location: &String,
    hours: &Option<String>,
    contact: &Option<String>,
)
    ensures
        final(rows).deep_view() == old(rows).deep_view() + (method_label(staff_kind_text(staff_kind))
            + text_rows("i18n:guest.buildingStaff.deskLocation"@, desk_location@) + opt_text_rows(
            "i18n:guest.buildingStaff.hours"@,
            hours.deep_view(),
        ) + opt_text_rows("i18n:guest.buildingStaff.contact"@, contact.deep_view())),
{
    push_method_label(rows, staff_kind_key(staff_kind));
    push_text_row(rows, "i18n:guest.buildingStaff.deskLocation", desk_location.as_str());
    push_opt_text_row(rows, "i18n:guest.buildingStaff.hours", hours);
    push_opt_text_row(rows, "i18n:guest.buildingStaff.contact", contact);
    assert(rows.deep_view() =~= old(rows).deep_view() + (method_label(staff_kind_text(staff_kind))
        + text_rows("i18n:guest.buildingStaff.deskLocation"@, desk_location@) + opt_text_rows(
        "i18n:guest.buildingStaff.hours"@,
        hours.deep_view(),
    ) + opt_text_rows("i18n:guest.buildingStaff.contact"@, contact.deep_view())));
}

fn push_host_greets(rows: &mut Vec<AccessRow>, contact_note: &Option<String>, eta_hint: &Option<String>)
    ensures
        final(rows).deep_view() == old(rows).deep_view() + (method_label("i18n:guest.method.hostGreets"@)
            + opt_text_rows("i18n:guest.hostGreets.etaHint"@, eta_hint.deep_view()) + opt_text_rows(
            "i18n:guest.hostGreets.contactNote"@,
            contact_note.deep_view(),
        )),
{
    push_method_label(rows, "i18n:guest.method.hostGreets");
    push_opt_text_row(rows, "i18n:guest.hostGreets.etaHint", eta_hint);
    push_opt_text_row(rows, "i18n:guest.hostGreets.contactNote", contact_note);
    assert(rows.deep_view() =~= old(rows).deep_view() + (method_label("i18n:guest.method.hostGreets"@)
        + opt_text_rows("i18n:guest.hostGreets.etaHint"@, eta_hint.deep_view()) + opt_text_rows(
        "i18n:guest.hostGreets.contactNote"@,
        contact_note.deep_view(),
    )));
}

fn push_other(rows: &mut Vec<AccessRow>, texts: &ModuleTexts)
    ensures
        final(rows).deep_view() == old(rows).deep_view() + (method_label("i18n:guest.method.other"@)
            + instruction_rows(texts.deep_view())),
{
    push_method_label(rows, "i18n:guest.method.other");
    push_method_instructions(rows, texts);
    assert(rows.deep_view() =~= old(rows).deep_view() + (method_label("i18n:guest.method.other"@)
        + instruction_rows(texts.deep_view())));
}

/// Adds the rows of the primary method (see [`method_rows`]).
pub fn push_primary_method(rows: &mut Vec<AccessRow>, data: &GuestData, detailed: bool)
    ensures
        final(rows).deep_view() == old(rows).deep_view() + method_rows(
            data.config.deep_view(),
            data.texts.deep_view(),
            data.secrets_revealed,
            data.meeting_coords_label.deep_view(),
            detailed,
        ),
{
    proof { reveal(method_rows); }
    match &data.config.method {
        MethodFields::Keybox { location, code } => push_keybox(rows, location, code, data, detailed),
        MethodFields::DoorCode { target, code } => push_door_code(rows, *target, code, data, detailed),
        MethodFields::SmartLock { manual_code } => push_smart_lock(rows, manual_code, data, detailed),
        MethodFields::InPerson { meeting_place, time_hint, contact, .. } => push_in_person(
            rows,
            meeting_place,
            time_hint,
            contact,
            &data.meeting_coords_label,
        ),
        MethodFields::BuildingStaff { staff_kind, desk_location, hours, contact } => push_building_staff(
            rows,
            *staff_kind,
            desk_location,
            hours,
            contact,
        ),
        MethodFields::HostGreets { contact_note, eta_hint } => push_host_greets(rows, contact_note, eta_hint),
        MethodFields::Other => push_other(rows, &data.texts),
    }
}

fn building_note(texts: &ModuleTexts) -> (r: Option<String>)
    ensures
        r.deep_view() == note_of(texts.deep_view()),
{
    match &texts.building_note {
        Some(n) => nonempty_owned(n.as_str()),
        None => None,
    }
}

/// Adds the rows of one building layer (see [`layer_rows`]).
pub fn push_building_access(rows: &mut Vec<AccessRow>, data: &GuestData, building: &BuildingAccess, detailed: bool)
    ensures
        final(rows).deep_view() == old(rows).deep_view() + layer_rows(
            building.deep_view(),
            note_of(data.texts.deep_view()),
            data.secrets_revealed,
            detailed,
        ),
{
    let note = building_note(&data.texts);
    if building.is_empty() && note.is_none() {
        proof { lemma_concat_empty(old(rows).deep_view()); }
        return;
    }
    push_opt_secret_row(rows, data.secrets_revealed, "i18n:guest.building.gateCode", &building.gate_code);
    push_opt_text_row(rows, "i18n:guest.building.intercom", &building.intercom);
    let ghost r2 = rows.deep_view();
    if detailed {
        match &note {
            Some(n) => push_text_row(rows, "i18n:guest.building.note", n.as_str()),
            None => proof { lemma_concat_empty(r2); },
        }
    } else {
        proof { lemma_concat_empty(r2); }
    }
    assert(rows.deep_view() =~= old(rows).deep_view() + layer_rows(
        building.deep_view(),
        note_of(data.texts.deep_view()),
        data.secrets_revealed,
        detailed,
    ));
}

fn push_building(rows: &mut Vec<AccessRow>, data: &GuestData, detailed: bool)
    ensures
        final(rows).deep_view() == old(rows).deep_view() + building_rows(
            data.config.deep_view(),
            data.texts.deep_view(),
            data.secrets_revealed,
            detailed,
        ),
{
    proof { reveal(building_rows); }
    match &data.config.building_access {
        Some(b) => push_building_access(rows, data, b, detailed),
        None => if building_note(&data.texts).is_some() {
            let empty = BuildingAccess { gate_code: None, intercom: None };
            push_building_access(rows, data, &empty, detailed);
        } else {
            proof { lemma_concat_empty(old(rows).deep_view()); }
        },
    }
}

/// Adds the parking rows (see [`parking_rows`]).
pub fn push_parking(rows: &mut Vec<AccessRow>, data: &GuestData)
    ensures
        final(rows).deep_view() == old(rows).deep_view() + parking_rows(
            data.config.deep_view(),
            data.texts.deep_view(),
            data.secrets_revealed,
        ),
{
    proof { reveal(parking_rows); }
    let layer_empty = match &data.config.parking {
        Some(p) => p.is_empty(),
        None => true,
    };
    let info = data.texts.parking_info.as_str();
    if layer_empty && blank(info) {
        proof { lemma_concat_empty(old(rows).deep_view()); }
        return;
    }
    push_text_row(rows, "i18n:guest.parking", info);
    let ghost r2 = rows.deep_view();
    match &data.config.parking {
        Some(p) => push_opt_secret_row(rows, data.secrets_revealed, "i18n:guest.parking.code", &p.code),
        None => proof { lemma_concat_empty(r2); },
    }
    assert(rows.deep_view() =~= old(rows).deep_view() + parking_rows(
        data.config.deep_view(),
        data.texts.deep_view(),
        data.secrets_revealed,
    ));
}

/// Adds the locked-codes banner (see [`banner_rows`]).
pub fn push_reveal_banner(rows: &mut Vec<AccessRow>, data: &GuestData)
    ensures
        final(rows).deep_view() == old(rows).deep_view() + banner_rows(
            data.config.deep_view(),
            data.secrets_revealed,
            data.reveal_locked_message.deep_view(),
        ),
{
    proof { reveal(banner_rows); }
    if data.secrets_revealed || !has_any_secret(&data.config) {
        proof { lemma_concat_empty(old(rows).deep_view()); }
        return;
    }
    match &data.reveal_locked_message {
        Some(m) => {
            push_row(rows, AccessRow::InfoBanner { title: "i18n:guest.reveal.lockedTitle".to_owned(), message: m.clone() });
            proof {
                lemma_push_one(
                    old(rows).deep_view(),
                    AccessRowModel::InfoBanner { title: "i18n:guest.reveal.lockedTitle"@, message: m@ },
                );
            }
        },
        None => proof { lemma_concat_empty(old(rows).deep_view()); },
    }
}

/// The map link (see [`maps_url_of`]).
pub fn maps_url(data: &GuestData) -> (r: Option<String>)
    ensures
        r.deep_view() == maps_url_of(data.config.deep_view(), data.coords_maps_url.deep_view()),
{
    match &data.config.parking {
        Some(p) => {
            let t = trim_str(p.map_url.as_str());
            if t.unicode_len() > 0 {
                return Some(t.to_owned());
            }
        },
        None => {},
    }
    data.coords_maps_url.clone()
}

fn push_step(rows: &mut Vec<AccessRow>, step: &ResolvedStep)
    ensures
        final(rows).deep_view() == old(rows).deep_view() + step_rows(step.deep_view()),
{
    let title = trim_str(step.title.as_str());
    if title.unicode_len() == 0 {
        proof { lemma_concat_empty(old(rows).deep_view()); }
        return;
    }
    let kind: Option<&str> = match &step.kind {
        Some(k) => Some(k.as_str()),
        None => None,
    };
    let badge = kind_label(kind);
    let detail = match &step.detail {
        Some(d) => nonempty_owned(d.as_str()),
        None => None,
    };
    let row = AccessRow::Step { title: title.to_owned(), badge, detail };
    push_row(rows, row);
    proof { lemma_push_one(old(rows).deep_view(), row.deep_view()); }
}

/// Adds the arrival video and the arrival steps (see [`arrival_rows`]).
pub fn push_arrival_extras(rows: &mut Vec<AccessRow>, data: &GuestData)
    ensures
        final(rows).deep_view() == old(rows).deep_view() + arrival_rows(data.deep_view()),
{
    let video = trim_str(data.config.arrival.arrival_video_url.as_str());
    if video.unicode_len() > 0 {
        push_row(rows, AccessRow::Video { url: video.to_owned() });
    }
    let ghost r1 = rows.deep_view();
    assert(r1 =~= old(rows).deep_view() + (if is_blank(data.config.arrival.arrival_video_url@) {
        Seq::<AccessRowModel>::empty()
    } else {
        seq![AccessRowModel::Video { url: trim(data.config.arrival.arrival_video_url@) }]
    }));
    let steps = data.config.resolve_steps(&data.texts);
    let ghost sv = steps.deep_view();
    let mut i: usize = 0;
    while i < steps.len()
        invariant
            i <= steps@.len(),
            sv == steps.deep_view(),
            rows.deep_view() == r1 + steps_rows(sv.subrange(0, i as int)),
        decreases steps.len() - i,
    {
        let ghost before = rows.deep_view();
        push_step(rows, &steps[i]);
        proof {
            let pre = sv.subrange(0, i + 1);
            assert(pre.drop_last() =~= sv.subrange(0, i as int));
            assert(pre.last() == steps[i as int].deep_view());
            assert(steps_rows(pre) == steps_rows(sv.subrange(0, i as int)) + step_rows(sv[i as int]));
            assert(rows.deep_view() =~= r1 + steps_rows(pre));
        }
        i = i + 1;
    }
    assert(sv.subrange(0, sv.len() as int) =~= sv);
    assert(rows.deep_view() =~= old(rows).deep_view() + arrival_rows(data.deep_view()));
}

fn push_core_head(rows: &mut Vec<AccessRow>, data: &GuestData)
    ensures
        final(rows).deep_view() == old(rows).deep_view() + core_head(data.deep_view()),
{
    push_reveal_banner(rows, data);
    let ghost r1 = rows.deep_view();
    if data.has_map {
        push_row(rows, AccessRow::PropertyMap);
    }
    let ghost r2 = rows.deep_view();
    if data.address.unicode_len() > 0 {
        push_row(rows, kv_row("i18n:guest.address", data.address.as_str(), false));
    }
    proof {
        let g = data.deep_view();
        assert(r2 =~= r1 + (if g.has_map { seq![AccessRowModel::PropertyMap] } else { Seq::empty() }));
        assert(rows.deep_view() =~= r2 + (if g.address.len() == 0 {
            Seq::empty()
        } else {
            seq![kv("i18n:guest.address"@, g.address, false)]
        }));
        assert(rows.deep_view() =~= old(rows).deep_view() + core_head(g));
    }
}

fn push_core_tail(rows: &mut Vec<AccessRow>, data: &GuestData, detailed: bool)
    ensures
        final(rows).deep_view() == old(rows).deep_view() + core_tail(data.deep_view(), detailed),
{
    push_primary_method(rows, data, detailed);
    push_building(rows, data, detailed);
    push_parking(rows, data);
    let ghost r4 = rows.deep_view();
    match maps_url(data) {
        Some(u) => push_row(rows, AccessRow::OpenMaps { url: u }),
        None => {},
    }
    proof {
        let g = data.deep_view();
        assert(rows.deep_view() =~= r4 + match maps_url_of(g.config, g.coords_url) {
            Some(u) => seq![AccessRowModel::OpenMaps { url: u }],
            None => Seq::empty(),
        });
        assert(rows.deep_view() =~= old(rows).deep_view() + core_tail(g, detailed));
    }
}

fn push_core(rows: &mut Vec<AccessRow>, data: &GuestData, detailed: bool)
    ensures
        final(rows).deep_view() == old(rows).deep_view() + core_rows(data.deep_view(), detailed),
{
    push_core_head(rows, data);
    push_core_tail(rows, data, detailed);
    assert(rows.deep_view() =~= old(rows).deep_view() + core_rows(data.deep_view(), detailed));
}

/// The booklet card rows (see [`glance_rows`]).
pub fn build_access_glance(data: &GuestData) -> (r: Vec<AccessRow>)
    ensures
        r.deep_view() == glance_rows(data.deep_view()),
{
    let mut rows: Vec<AccessRow> = Vec::new();
    push_core(&mut rows, data, false);
    assert(rows.deep_view() =~= glance_rows(data.deep_view()));
    rows
}

/// The full page rows (see [`detail_rows`]).
pub fn build_access_detail(data: &GuestData) -> (r: Vec<AccessRow>)
    ensures
        r.deep_view() == detail_rows(data.deep_view()),
{
    let mut rows: Vec<AccessRow> = Vec::new();
    let note = trim_str(data.texts.global_note.as_str());
    if note.unicode_len() > 0 {
        push_row(&mut rows, AccessRow::InfoBanner { title: "i18n:guest.note.title".to_owned(), message: note.to_owned() });
    }
    let ghost r1 = rows.deep_view();
    push_core(&mut rows, data, true);
    push_arrival_extras(&mut rows, data);
    proof {
        let g = data.deep_view();
        assert(r1 =~= (if is_blank(g.texts.global_note) {
            Seq::empty()
        } else {
            seq![AccessRowModel::InfoBanner { title: "i18n:guest.note.title"@, message: trim(g.texts.global_note) }]
        }));
        assert(rows.deep_view() =~= detail_rows(g));
    }
    rows
}

// ── Locked pages show no code ───────────────────────────────────────────────

/// No row shows a code in the clear: every code row holds the mask and no
/// smart-lock command is offered.
pub open spec fn reveals_nothing(rows: Seq<AccessRowModel>) -> bool {
    forall|i: int|
        0 <= i < rows.len() ==> match #[trigger] rows[i] {
            AccessRowModel::Code { value, .. } => value == secret_mask(),
            AccessRowModel::SmartLock { .. } => false,
            _ => true,
        }
}

proof fn lemma_join_masked(a: Seq<AccessRowModel>, b: Seq<AccessRowModel>)
    requires
        reveals_nothing(a),
        reveals_nothing(b),
    ensures
        reveals_nothing(a + b),
{
    assert forall|i: int| 0 <= i < (a + b).len() implies match #[trigger] (a + b)[i] {
        AccessRowModel::Code { value, .. } => value == secret_mask(),
        AccessRowModel::SmartLock { .. } => false,
        _ => true,
    } by {
        if i < a.len() {
            assert((a + b)[i] == a[i]);
        } else {
            assert((a + b)[i] == b[i - a.len()]);
        }
    }
}

proof fn lemma_steps_masked(steps: Seq<ResolvedStepModel>)
    ensures
        reveals_nothing(steps_rows(steps)),
    decreases steps.len(),
{
    if steps.len() > 0 {
        lemma_steps_masked(steps.drop_last());
        lemma_join_masked(steps_rows(steps.drop_last()), step_rows(steps.last()));
    }
}

proof fn lemma_method_masked(c: ConfigModel, t: TextsModel, coords: Option<Seq<char>>, detailed: bool)
    ensures
        reveals_nothing(method_rows(c, t, false, coords, detailed)),
{
    reveal(method_rows);
    let rows = method_rows(c, t, false, coords, detailed);
    assert forall|i: int| 0 <= i < rows.len() implies match #[trigger] rows[i] {
        AccessRowModel::Code { value, .. } => value == secret_mask(),
        AccessRowModel::SmartLock { .. } => false,
        _ => true,
    } by {
        match c.method {
            MethodModel::Keybox { location, code } => {
                let a = method_label("i18n:guest.method.keybox"@);
                let b = text_rows("i18n:guest.keybox.location"@, location);
                let d = opt_secret_rows(false, "i18n:guest.keybox.code"@, code);
                let e: Seq<AccessRowModel> = if detailed { instruction_rows(t) } else { Seq::empty() };
                lemma_join_masked(a, b);
                lemma_join_masked(a + b, d);
                lemma_join_masked(a + b + d, e);
            },
            MethodModel::DoorCode { target, code } => {
                let a = method_label(door_target_text(target));
                let b = secret_rows(false, "i18n:guest.doorCode.code"@, code);
                let e: Seq<AccessRowModel> = if detailed { instruction_rows(t) } else { Seq::empty() };
                lemma_join_masked(a, b);
                lemma_join_masked(a + b, e);
            },
            MethodModel::SmartLock { manual_code } => {
                let a = method_label("i18n:guest.method.smartLock"@);
                let b = smart_lock_rows(c, false);
                let d = opt_secret_rows(false, "i18n:guest.smartLock.manualCode"@, manual_code);
                let e: Seq<AccessRowModel> = if detailed || provider_of(c) is None {
                    instruction_rows(t)
                } else {
                    Seq::empty()
                };
                lemma_join_masked(a, b);
                lemma_join_masked(a + b, d);
                lemma_join_masked(a + b + d, e);
            },
            MethodModel::InPerson { meeting_place, time_hint, contact, .. } => {
                let a = method_label("i18n:guest.method.inPerson"@);
                let b = text_rows("i18n:guest.inPerson.meetingPlace"@, meeting_place);
                let d: Seq<AccessRowModel> = match coords {
                    Some(l) => seq![kv("i18n:guest.inPerson.coords"@, l, true)],
                    None => Seq::empty(),
                };
                let e = opt_text_rows("i18n:guest.inPerson.timeHint"@, time_hint);
                let f = opt_text_rows("i18n:guest.inPerson.contact"@, contact);
                lemma_join_masked(a, b);
                lemma_join_masked(a + b, d);
                lemma_join_masked(a + b + d, e);
                lemma_join_masked(a + b + d + e, f);
            },
            MethodModel::BuildingStaff { staff_kind, desk_location, hours, contact } => {
                let a = method_label(staff_kind_text(staff_kind));
                let b = text_rows("i18n:guest.buildingStaff.deskLocation"@, desk_location);
                let d = opt_text_rows("i18n:guest.buildingStaff.hours"@, hours);
                let e = opt_text_rows("i18n:guest.buildingStaff.contact"@, contact);
                lemma_join_masked(a, b);
                lemma_join_masked(a + b, d);
                lemma_join_masked(a + b + d, e);
            },
            MethodModel::HostGreets { contact_note, eta_hint } => {
                let a = method_label("i18n:guest.method.hostGreets"@);
                let b = opt_text_rows("i18n:guest.hostGreets.etaHint"@, eta_hint);
                let d = opt_text_rows("i18n:guest.hostGreets.contactNote"@, contact_note);
                lemma_join_masked(a, b);
                lemma_join_masked(a + b, d);
            },
            MethodModel::Other => {
                lemma_join_masked(method_label("i18n:guest.method.other"@), instruction_rows(t));
            },
        }
    }
}

proof fn lemma_layer_masked(b: BuildingAccessModel, note: Option<Seq<char>>, detailed: bool)
    ensures
        reveals_nothing(layer_rows(b, note, false, detailed)),
{
    let x = opt_secret_rows(false, "i18n:guest.building.gateCode"@, b.gate_code);
    let y = opt_text_rows("i18n:guest.building.intercom"@, b.intercom);
    let z: Seq<AccessRowModel> = if detailed {
        match note {
            Some(n) => text_rows("i18n:guest.building.note"@, n),
            None => Seq::empty(),
        }
    } else {
        Seq::empty()
    };
    lemma_join_masked(x, y);
    lemma_join_masked(x + y, z);
}

proof fn lemma_core_masked(g: GuestModel, detailed: bool)
    requires
        !g.revealed,
    ensures
        reveals_nothing(core_rows(g, detailed)),
{
    reveal(banner_rows);
    reveal(building_rows);
    reveal(parking_rows);
    let a = banner_rows(g.config, g.revealed, g.message);
    let b: Seq<AccessRowModel> = if g.has_map { seq![AccessRowModel::PropertyMap] } else { Seq::empty() };
    let c: Seq<AccessRowModel> = if g.address.len() == 0 {
        Seq::empty()
    } else {
        seq![kv("i18n:guest.address"@, g.address, false)]
    };
    let d = method_rows(g.config, g.texts, g.revealed, g.coords, detailed);
    let e = building_rows(g.config, g.texts, g.revealed, detailed);
    let f = parking_rows(g.config, g.texts, g.revealed);
    let h: Seq<AccessRowModel> = match maps_url_of(g.config, g.coords_url) {
        Some(u) => seq![AccessRowModel::OpenMaps { url: u }],
        None => Seq::empty(),
    };
    lemma_method_masked(g.config, g.texts, g.coords, detailed);
    match g.config.building_access {
        Some(bl) => lemma_layer_masked(bl, note_of(g.texts), detailed),
        None => lemma_layer_masked(BuildingAccessModel { gate_code: None, intercom: None }, note_of(g.texts), detailed),
    }
    match g.config.parking {
        Some(p) => lemma_join_masked(
            text_rows("i18n:guest.parking"@, g.texts.parking_info),
            opt_secret_rows(false, "i18n:guest.parking.code"@, p.code),
        ),
        None => lemma_join_masked(text_rows("i18n:guest.parking"@, g.texts.parking_info), Seq::empty()),
    }
    lemma_join_masked(a, b);
    lemma_join_masked(a + b, c);
    lemma_join_masked(d, e);
    lemma_join_masked(d + e, f);
    lemma_join_masked(d + e + f, h);
    lemma_join_masked(core_head(g), core_tail(g, detailed));
}

/// Before the reveal instant neither the booklet card nor the full page
/// shows an access code: each code row holds the mask and no smart-lock
/// command is offered.
pub proof fn lemma_locked_guest_rows_hide_codes(g: GuestModel)
    requires
        !g.revealed,
    ensures
        reveals_nothing(glance_rows(g)),
        reveals_nothing(detail_rows(g)),
{
    lemma_core_masked(g, false);
    lemma_core_masked(g, true);
    let a: Seq<AccessRowModel> = if is_blank(g.texts.global_note) {
        Seq::empty()
    } else {
        seq![AccessRowModel::InfoBanner { title: "i18n:guest.note.title"@, message: trim(g.texts.global_note) }]
    };
    let v: Seq<AccessRowModel> = if is_blank(g.config.arrival.arrival_video_url) {
        Seq::empty()
    } else {
        seq![AccessRowModel::Video { url: trim(g.config.arrival.arrival_video_url) }]
    };
    lemma_steps_masked(resolved_steps_of(g.config, g.texts));
    lemma_join_masked(v, steps_rows(resolved_steps_of(g.config, g.texts)));
    lemma_join_masked(a, core_rows(g, true));
    lemma_join_masked(a + core_rows(g, true), arrival_rows(g));
}

// ── Loading ─────────────────────────────────────────────────────────────────

/// The meeting point and property coordinates as the shell shows them.
#[derive(Debug)]
pub struct GuestCoords {
    pub meeting_coords_label: Option<String>,
    pub has_map: bool,
    pub maps_url: Option<String>,
}

/// The arrival address: the configured one (trimmed), else the property's.
pub open spec fn guest_address(c: ConfigModel, property_address: Option<Seq<char>>) -> Seq<char> {
    if is_blank(c.arrival.address) {
        match property_address {
            Some(a) => a,
            None => Seq::empty(),
        }
    } else {
        trim(c.arrival.address)
    }
}

/// The guest page data: none when there is nothing to show; otherwise the
/// address, and the reveal decision of the configured timing at `now` for
/// the check-in with its locked message.
pub fn load_guest_data(
    config: ModuleConfig,
    texts: ModuleTexts,
    property_address: Option<String>,
    en: bool,
    now: i64,
    checkin_at: Option<i64>,
    property_timezone: &str,
    coords: GuestCoords,
) -> (r: Option<GuestData>)
    ensures
        !has_content_of(config.deep_view(), texts.deep_view()) ==> r is None,
        has_content_of(config.deep_view(), texts.deep_view()) ==> (r matches Some(d) && {
            let decision = reveal_decision(timing_of(config.reveal_policy), now, checkin_at, property_timezone@);
            &&& d.config.deep_view() == config.deep_view()
            &&& d.texts.deep_view() == texts.deep_view()
            &&& d.address@ == guest_address(config.deep_view(), property_address.deep_view())
            &&& d.secrets_revealed == decision.revealed
            &&& d.reveal_locked_message.deep_view() == locked_banner_text(decision, property_timezone@, en)
            &&& d.meeting_coords_label.deep_view() == coords.meeting_coords_label.deep_view()
            &&& d.has_map == coords.has_map
            &&& d.coords_maps_url.deep_view() == coords.maps_url.deep_view()
        }),
{
    if !has_content(&config, &texts) {
        return None;
    }
    let configured = trim_str(config.address());
    let address = if configured.unicode_len() == 0 {
        match property_address {
            Some(a) => a,
            None => String::new(),
        }
    } else {
        configured.to_owned()
    };
    let decision = evaluate_reveal(timing_exec(config.reveal_policy), now, checkin_at, property_timezone);
    let message = locked_banner(&decision, property_timezone, en);
    Some(GuestData {
        config,
        texts,
        address,
        secrets_revealed: decision.revealed,
        reveal_locked_message: message,
        meeting_coords_label: coords.meeting_coords_label,
        has_map: coords.has_map,
        coords_maps_url: coords.maps_url,
    })
}

} // verus!
