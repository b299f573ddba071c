//! Shared structural configuration of the access guide (language-invariant),
//! and its migration from the pre-redesign flat document.

use vstd::prelude::*;



use crate::json::{JsonValue, member, parse_json};
use crate::access_guide::texts::{ModuleTexts, TextsModel, StepTextModel, step_index, texts_empty, extract_embedded_texts, embedded_texts_of};
use crate::text::{blank, is_blank, nonempty_of, nonempty_opt, nonempty_owned, opt_blank, opt_empty, trim, trim_str, trimmed_owned};

verus! {

// ── Enumerations ────────────────────────────────────────────────────────────

/// Primary way the guest gets in.
#[derive(Debug, Clone, Copy, PartialEq, Eq, Structural)]
pub enum PrimaryMethod {
    Keybox,
    DoorCode,
    SmartLock,
    InPerson,
    BuildingStaff,
    HostGreets,
    Other,
}

/// Wire string of a primary method.
pub open spec fn primary_wire(m: PrimaryMethod) -> Seq<char> {
    match m {
        PrimaryMethod::Keybox => "keybox"@,
        PrimaryMethod::DoorCode => "door_code"@,
        PrimaryMethod::SmartLock => "smart_lock"@,
        PrimaryMethod::InPerson => "in_person"@,
        PrimaryMethod::BuildingStaff => "building_staff"@,
        PrimaryMethod::HostGreets => "host_greets"@,
        PrimaryMethod::Other => "other"@,
    }
}

impl PrimaryMethod {
    /// Wire string for the host choice list and `updateConfig`.
    pub fn as_wire(self) -> (r: &'static str)
        ensures
            r@ == primary_wire(self),
    {
        match self {
            PrimaryMethod::Keybox => "keybox",
            PrimaryMethod::DoorCode => "door_code",
            PrimaryMethod::SmartLock => "smart_lock",
            PrimaryMethod::InPerson => "in_person",
            PrimaryMethod::BuildingStaff => "building_staff",
            PrimaryMethod::HostGreets => "host_greets",
            PrimaryMethod::Other => "other",
        }
    }

    /// Whether this method carries an access code (keybox, door code, smart lock).
    pub fn involves_access_code(self) -> (b: bool)
        ensures
            b == (self == PrimaryMethod::Keybox || self == PrimaryMethod::DoorCode || self
                == PrimaryMethod::SmartLock),
    {
        match self {
            PrimaryMethod::Keybox | PrimaryMethod::DoorCode | PrimaryMethod::SmartLock => true,
            _ => false,
        }
    }
}

impl Default for PrimaryMethod {
    fn default() -> (r: Self)
        ensures
            r == PrimaryMethod::Other,
    {
        PrimaryMethod::Other
    }
}

/// Which door a door code opens.
#[derive(Debug, Clone, Copy, PartialEq, Eq, Structural)]
pub enum DoorCodeTarget {
    Gate,
    Building,
    Apartment,
}

impl Default for DoorCodeTarget {
    fn default() -> (r: Self)
        ensures
            r == DoorCodeTarget::Building,
    {
        DoorCodeTarget::Building
    }
}

/// Who greets the guest at a building desk.
#[derive(Debug, Clone, Copy, PartialEq, Eq, Structural)]
pub enum StaffKind {
    Reception,
    Caretaker,
}

impl Default for StaffKind {
    fn default() -> (r: Self)
        ensures
            r == StaffKind::Reception,
    {
        StaffKind::Reception
    }
}

/// When secrets (codes) become visible to the guest.
#[derive(Debug, Clone, Copy, PartialEq, Eq, Structural)]
pub enum RevealPolicy {
    Always,
    HoursBefore24,
    DayBefore16h,
    AtCheckin,
}

/// Wire string of a reveal policy.
pub open spec fn reveal_wire(p: RevealPolicy) -> Seq<char> {
    match p {
        RevealPolicy::Always => "always"@,
        RevealPolicy::HoursBefore24 => "hours_before_24"@,
        RevealPolicy::DayBefore16h => "day_before_16h"@,
        RevealPolicy::AtCheckin => "at_checkin"@,
    }
}

impl RevealPolicy {
    /// Wire string for the host choice list and `updateConfig`.
    pub fn as_wire(self) -> (r: &'static str)
        ensures
            r@ == reveal_wire(self),
    {
        match self {
            RevealPolicy::Always => "always",
            RevealPolicy::HoursBefore24 => "hours_before_24",
            RevealPolicy::DayBefore16h => "day_before_16h",
            RevealPolicy::AtCheckin => "at_checkin",
        }
    }
}

impl Default for RevealPolicy {
    fn default() -> (r: Self)
        ensures
            r == RevealPolicy::DayBefore16h,
    {
        RevealPolicy::DayBefore16h
    }
}

// ── Structures and their models ─────────────────────────────────────────────

/// Fields of the selected primary access method. Meeting-point coordinates
/// are kept as their decimal text.
#[derive(Debug, Clone, PartialEq)]
pub enum MethodFields {
    Keybox { location: String, code: Option<String> },
    DoorCode { target: DoorCodeTarget, code: String },
    SmartLock { manual_code: Option<String> },
    InPerson {
        meeting_place: String,
        lat: Option<String>,
        lng: Option<String>,
        time_hint: Option<String>,
        contact: Option<String>,
    },
    BuildingStaff {
        staff_kind: StaffKind,
        desk_location: String,
        hours: Option<String>,
        contact: Option<String>,
    },
    HostGreets { contact_note: Option<String>, eta_hint: Option<String> },
    Other,
}

/// [`MethodFields`] with texts as character sequences.
#[verifier::ext_equal]
pub enum MethodModel {
    Keybox { location: Seq<char>, code: Option<Seq<char>> },
    DoorCode { target: DoorCodeTarget, code: Seq<char> },
    SmartLock { manual_code: Option<Seq<char>> },
    InPerson {
        meeting_place: Seq<char>,
        lat: Option<Seq<char>>,
        lng: Option<Seq<char>>,
        time_hint: Option<Seq<char>>,
        contact: Option<Seq<char>>,
    },
    BuildingStaff {
        staff_kind: StaffKind,
        desk_location: Seq<char>,
        hours: Option<Seq<char>>,
        contact: Option<Seq<char>>,
    },
    HostGreets { contact_note: Option<Seq<char>>, eta_hint: Option<Seq<char>> },
    Other,
}

impl DeepView for MethodFields {
    type V = MethodModel;

    open spec fn deep_view(&self) -> MethodModel {
        match self {
            MethodFields::Keybox { location, code } => MethodModel::Keybox {
                location: location@,
                code: code.deep_view(),
            },
            MethodFields::DoorCode { target, code } => MethodModel::DoorCode {
                target: *target,
                code: code@,
            },
            MethodFields::SmartLock { manual_code } => MethodModel::SmartLock {
                manual_code: manual_code.deep_view(),
            },
            MethodFields::InPerson { meeting_place, lat, lng, time_hint, contact } =>
                MethodModel::InPerson {
                meeting_place: meeting_place@,
                lat: lat.deep_view(),
                lng: lng.deep_view(),
                time_hint: time_hint.deep_view(),
                contact: contact.deep_view(),
            },
            MethodFields::BuildingStaff { staff_kind, desk_location, hours, contact } =>
                MethodModel::BuildingStaff {
                staff_kind: *staff_kind,
                desk_location: desk_location@,
                hours: hours.deep_view(),
                contact: contact.deep_view(),
            },
            MethodFields::HostGreets { contact_note, eta_hint } => MethodModel::HostGreets {
                contact_note: contact_note.deep_view(),
                eta_hint: eta_hint.deep_view(),
            },
            MethodFields::Other => MethodModel::Other,
        }
    }
}

/// Primary method a method variant stands for.
pub open spec fn method_primary(m: MethodModel) -> PrimaryMethod {
    match m {
        MethodModel::Keybox { .. } => PrimaryMethod::Keybox,
        MethodModel::DoorCode { .. } => PrimaryMethod::DoorCode,
        MethodModel::SmartLock { .. } => PrimaryMethod::SmartLock,
        MethodModel::InPerson { .. } => PrimaryMethod::InPerson,
        MethodModel::BuildingStaff { .. } => PrimaryMethod::BuildingStaff,
        MethodModel::HostGreets { .. } => PrimaryMethod::HostGreets,
        MethodModel::Other => PrimaryMethod::Other,
    }
}

impl Default for MethodFields {
    fn default() -> (r: Self)
        ensures
            r.deep_view() == MethodModel::Other,
    {
        MethodFields::Other
    }
}

impl MethodFields {
    /// Primary method matching this variant.
    pub fn primary_method(&self) -> (r: PrimaryMethod)
        ensures
            r == method_primary(self.deep_view()),
    {
        match self {
            MethodFields::Keybox { .. } => PrimaryMethod::Keybox,
            MethodFields::DoorCode { .. } => PrimaryMethod::DoorCode,
            MethodFields::SmartLock { .. } => PrimaryMethod::SmartLock,
            MethodFields::InPerson { .. } => PrimaryMethod::InPerson,
            MethodFields::BuildingStaff { .. } => PrimaryMethod::BuildingStaff,
            MethodFields::HostGreets { .. } => PrimaryMethod::HostGreets,
            MethodFields::Other => PrimaryMethod::Other,
        }
    }
}

/// Building entrance layer (gate code, intercom).
#[derive(Debug, Clone, PartialEq, Eq)]
pub struct BuildingAccess {
    pub gate_code: Option<String>,
    pub intercom: Option<String>,
}

#[verifier::ext_equal]
pub struct BuildingAccessModel {
    pub gate_code: Option<Seq<char>>,
    pub intercom: Option<Seq<char>>,
}

impl DeepView for BuildingAccess {
    type V = BuildingAccessModel;

    open spec fn deep_view(&self) -> BuildingAccessModel {
        BuildingAccessModel { gate_code: self.gate_code.deep_view(), intercom: self.intercom.deep_view() }
    }
}

pub open spec fn building_is_empty(b: BuildingAccessModel) -> bool {
    opt_blank(b.gate_code) && opt_blank(b.intercom)
}

impl BuildingAccess {
    /// True when neither gate code nor intercom holds text.
    pub fn is_empty(&self) -> (r: bool)
        ensures
            r == building_is_empty(self.deep_view()),
    {
        opt_empty(&self.gate_code) && opt_empty(&self.intercom)
    }
}

/// Parking layer (map link, code).
#[derive(Debug, Clone, PartialEq, Eq)]
pub struct ParkingLayer {
    pub map_url: String,
    pub code: Option<String>,
}

#[verifier::ext_equal]
pub struct ParkingLayerModel {
    pub map_url: Seq<char>,
    pub code: Option<Seq<char>>,
}

impl DeepView for ParkingLayer {
    type V = ParkingLayerModel;

    open spec fn deep_view(&self) -> ParkingLayerModel {
        ParkingLayerModel { map_url: self.map_url@, code: self.code.deep_view() }
    }
}

pub open spec fn parking_is_empty(p: ParkingLayerModel) -> bool {
    is_blank(p.map_url) && opt_blank(p.code)
}

impl ParkingLayer {
    /// True when neither map link nor code holds text.
    pub fn is_empty(&self) -> (r: bool)
        ensures
            r == parking_is_empty(self.deep_view()),
    {
        blank(self.map_url.as_str()) && opt_empty(&self.code)
    }
}

/// Shared step skeleton (`id` + `kind`); titles live in the texts.
#[derive(Debug, Clone, PartialEq, Eq)]
pub struct AccessStep {
    pub id: String,
    pub kind: Option<String>,
}

#[verifier::ext_equal]
pub struct AccessStepModel {
    pub id: Seq<char>,
    pub kind: Option<Seq<char>>,
}

impl DeepView for AccessStep {
    type V = AccessStepModel;

    open spec fn deep_view(&self) -> AccessStepModel {
        AccessStepModel { id: self.id@, kind: self.kind.deep_view() }
    }
}

/// Copy of an optional text.
pub fn clone_opt(o: &Option<String>) -> (r: Option<String>)
    ensures
        r.deep_view() == o.deep_view(),
{
    match o {
        Some(s) => Some(s.clone()),
        None => None,
    }
}

impl AccessStep {
    /// Copy of this step.
    pub fn duplicate(&self) -> (r: AccessStep)
        ensures
            r.deep_view() == self.deep_view(),
    {
        AccessStep { id: self.id.clone(), kind: clone_opt(&self.kind) }
    }
}

/// Arrival guide: address, step skeletons, video link.
#[derive(Debug, Clone, PartialEq, Eq)]
pub struct ArrivalGuide {
    pub address: String,
    pub steps: Vec<AccessStep>,
    pub arrival_video_url: String,
}

#[verifier::ext_equal]
pub struct ArrivalModel {
    pub address: Seq<char>,
    pub steps: Seq<AccessStepModel>,
    pub arrival_video_url: Seq<char>,
}

impl DeepView for ArrivalGuide {
    type V = ArrivalModel;

    open spec fn deep_view(&self) -> ArrivalModel {
        ArrivalModel {
            address: self.address@,
            steps: self.steps.deep_view(),
            arrival_video_url: self.arrival_video_url@,
        }
    }
}

/// A step whose id is not blank.
pub open spec fn step_named(s: AccessStepModel) -> bool {
    !is_blank(s.id)
}

/// Steps with a non-blank id, in order.
pub open spec fn named_steps(steps: Seq<AccessStepModel>) -> Seq<AccessStepModel> {
    steps.filter(|s: AccessStepModel| step_named(s))
}

pub open spec fn arrival_is_empty(a: ArrivalModel) -> bool {
    is_blank(a.address) && named_steps(a.steps).len() == 0 && is_blank(a.arrival_video_url)
}

impl Default for ArrivalGuide {
    fn default() -> (r: Self)
        ensures
            r.deep_view() == (ArrivalModel {
                address: Seq::empty(),
                steps: Seq::empty(),
                arrival_video_url: Seq::empty(),
            }),
    {
        ArrivalGuide { address: String::new(), steps: Vec::new(), arrival_video_url: String::new() }
    }
}

/// Steps with a non-blank id, copied in order.
pub fn keep_named_steps(steps: &Vec<AccessStep>) -> (r: Vec<AccessStep>)
    ensures
        r.deep_view() == named_steps(steps.deep_view()),
{
    let mut out: Vec<AccessStep> = Vec::new();
    let mut i: usize = 0;
    while i < steps.len()
        invariant
            i <= steps@.len(),
            out.deep_view() == named_steps(steps.deep_view().subrange(0, i as int)),
        decreases steps.len() - i,
    {
        proof {
            reveal(Seq::filter);
            let s = steps.deep_view().subrange(0, i + 1);
            assert(s.drop_last() =~= steps.deep_view().subrange(0, i as int));
        }
        if !blank(steps[i].id.as_str()) {
            out.push(steps[i].duplicate());
        }
        i = i + 1;
    }
    assert(steps.deep_view().subrange(0, steps@.len() as int) =~= steps.deep_view());
    out
}

impl BuildingAccess {
    /// Copy of this layer.
    pub fn duplicate(&self) -> (r: BuildingAccess)
        ensures
            r.deep_view() == self.deep_view(),
    {
        BuildingAccess { gate_code: clone_opt(&self.gate_code), intercom: clone_opt(&self.intercom) }
    }
}

impl ParkingLayer {
    /// Copy of this layer.
    pub fn duplicate(&self) -> (r: ParkingLayer)
        ensures
            r.deep_view() == self.deep_view(),
    {
        ParkingLayer { map_url: self.map_url.clone(), code: clone_opt(&self.code) }
    }
}

/// Copies of steps, in order.
pub fn duplicate_steps(steps: &Vec<AccessStep>) -> (r: Vec<AccessStep>)
    ensures
        r.deep_view() == steps.deep_view(),
{
    let mut out: Vec<AccessStep> = Vec::new();
    let mut i: usize = 0;
    while i < steps.len()
        invariant
            i <= steps@.len(),
            out.deep_view() == steps.deep_view().subrange(0, i as int),
        decreases steps.len() - i,
    {
        let ghost before = out.deep_view();
        let x = steps[i].duplicate();
        out.push(x);
        assert(out.deep_view() =~= before.push(steps.deep_view()[i as int]));
        assert(steps.deep_view().subrange(0, i + 1) =~= before.push(steps.deep_view()[i as int]));
        i = i + 1;
    }
    assert(steps.deep_view().subrange(0, steps@.len() as int) =~= steps.deep_view());
    out
}

impl ArrivalGuide {
    /// Copy of this guide.
    pub fn duplicate(&self) -> (r: ArrivalGuide)
        ensures
            r.deep_view() == self.deep_view(),
    {
        ArrivalGuide {
            address: self.address.clone(),
            steps: duplicate_steps(&self.steps),
            arrival_video_url: self.arrival_video_url.clone(),
        }
    }

    /// True when address, named steps and video link are all empty.
    pub fn is_empty(&self) -> (r: bool)
        ensures
            r == arrival_is_empty(self.deep_view()),
    {
        blank(self.address.as_str()) && self.parse_steps().len() == 0 && blank(
            self.arrival_video_url.as_str(),
        )
    }

    /// Step skeletons with a non-blank id.
    pub fn parse_steps(&self) -> (r: Vec<AccessStep>)
        ensures
            r.deep_view() == named_steps(self.steps.deep_view()),
    {
        keep_named_steps(&self.steps)
    }
}

/// Shared module configuration.
#[derive(Debug, Clone, PartialEq)]
pub struct ModuleConfig {
    pub primary_method: PrimaryMethod,
    pub method: MethodFields,
    pub building_access: Option<BuildingAccess>,
    pub parking: Option<ParkingLayer>,
    pub arrival: ArrivalGuide,
    pub reveal_policy: RevealPolicy,
    pub smart_lock_provider_module_id: Option<String>,
}

#[verifier::ext_equal]
pub struct ConfigModel {
    pub primary_method: PrimaryMethod,
    pub method: MethodModel,
    pub building_access: Option<BuildingAccessModel>,
    pub parking: Option<ParkingLayerModel>,
    pub arrival: ArrivalModel,
    pub reveal_policy: RevealPolicy,
    pub smart_lock_provider_module_id: Option<Seq<char>>,
}

impl DeepView for ModuleConfig {
    type V = ConfigModel;

    open spec fn deep_view(&self) -> ConfigModel {
        ConfigModel {
            primary_method: self.primary_method,
            method: self.method.deep_view(),
            building_access: self.building_access.deep_view(),
            parking: self.parking.deep_view(),
            arrival: self.arrival.deep_view(),
            reveal_policy: self.reveal_policy,
            smart_lock_provider_module_id: self.smart_lock_provider_module_id.deep_view(),
        }
    }
}

/// The configuration of a module that was never configured.
pub open spec fn default_config() -> ConfigModel {
    ConfigModel {
        primary_method: PrimaryMethod::Other,
        method: MethodModel::Other,
        building_access: None,
        parking: None,
        arrival: ArrivalModel {
            address: Seq::empty(),
            steps: Seq::empty(),
            arrival_video_url: Seq::empty(),
        },
        reveal_policy: RevealPolicy::DayBefore16h,
        smart_lock_provider_module_id: None,
    }
}

impl Default for ModuleConfig {
    fn default() -> (r: Self)
        ensures
            r.deep_view() == default_config(),
    {
        ModuleConfig {
            primary_method: PrimaryMethod::Other,
            method: MethodFields::Other,
            building_access: None,
            parking: None,
            arrival: ArrivalGuide::default(),
            reveal_policy: RevealPolicy::DayBefore16h,
            smart_lock_provider_module_id: None,
        }
    }
}

/// No text in any field of the method.
pub open spec fn method_empty(m: MethodModel) -> bool {
    match m {
        MethodModel::Keybox { location, code } => is_blank(location) && opt_blank(code),
        MethodModel::DoorCode { code, .. } => is_blank(code),
        MethodModel::SmartLock { manual_code } => opt_blank(manual_code),
        MethodModel::InPerson { meeting_place, lat, lng, time_hint, contact } => is_blank(
            meeting_place,
        ) && lat is None && lng is None && opt_blank(time_hint) && opt_blank(contact),
        MethodModel::BuildingStaff { desk_location, hours, contact, .. } => is_blank(
            desk_location,
        ) && opt_blank(hours) && opt_blank(contact),
        MethodModel::HostGreets { contact_note, eta_hint } => opt_blank(contact_note) && opt_blank(
            eta_hint,
        ),
        MethodModel::Other => true,
    }
}

/// True when the method holds no text.
pub fn method_is_empty(method: &MethodFields) -> (r: bool)
    ensures
        r == method_empty(method.deep_view()),
{
    match method {
        MethodFields::Keybox { location, code } => blank(location.as_str()) && opt_empty(code),
        MethodFields::DoorCode { code, .. } => blank(code.as_str()),
        MethodFields::SmartLock { manual_code } => opt_empty(manual_code),
        MethodFields::InPerson { meeting_place, lat, lng, time_hint, contact } => blank(
            meeting_place.as_str(),
        ) && lat.is_none() && lng.is_none() && opt_empty(time_hint) && opt_empty(contact),
        MethodFields::BuildingStaff { desk_location, hours, contact, .. } => blank(
            desk_location.as_str(),
        ) && opt_empty(hours) && opt_empty(contact),
        MethodFields::HostGreets { contact_note, eta_hint } => opt_empty(contact_note)
            && opt_empty(eta_hint),
        MethodFields::Other => true,
    }
}

/// Shared structure holds no codes, layers, arrival content or provider, and
/// the primary method is `Other`.
pub open spec fn config_is_empty(c: ConfigModel) -> bool {
    &&& method_empty(c.method)
    &&& match c.building_access {
        Some(b) => building_is_empty(b),
        None => true,
    }
    &&& match c.parking {
        Some(p) => parking_is_empty(p),
        None => true,
    }
    &&& arrival_is_empty(c.arrival)
    &&& opt_blank(c.smart_lock_provider_module_id)
    &&& c.primary_method == PrimaryMethod::Other
}

/// The door/gate code the guest uses: the door code of a door-code method,
/// else the building gate code; blank codes count as none.
pub open spec fn gate_code_of(c: ConfigModel) -> Option<Seq<char>> {
    match c.method {
        MethodModel::DoorCode { code, .. } if !is_blank(code) => Some(code),
        _ => match c.building_access {
            Some(b) => match b.gate_code {
                Some(g) if !is_blank(g) => Some(g),
                _ => None,
            },
            None => None,
        },
    }
}

/// Keybox code of a keybox method, when not blank.
pub open spec fn keybox_code_of(c: ConfigModel) -> Option<Seq<char>> {
    match c.method {
        MethodModel::Keybox { code: Some(k), .. } if !is_blank(k) => Some(k),
        _ => None,
    }
}

/// Manual code of a smart-lock method, when not blank.
pub open spec fn smart_lock_code_of(c: ConfigModel) -> Option<Seq<char>> {
    match c.method {
        MethodModel::SmartLock { manual_code: Some(k) } if !is_blank(k) => Some(k),
        _ => None,
    }
}

/// Map link of the parking layer, when not blank.
pub open spec fn parking_map_url_of(c: ConfigModel) -> Option<Seq<char>> {
    match c.parking {
        Some(p) if !is_blank(p.map_url) => Some(p.map_url),
        _ => None,
    }
}

/// An optional text's view.
pub open spec fn opt_view(o: Option<&str>) -> Option<Seq<char>> {
    match o {
        Some(s) => Some(s@),
        None => None,
    }
}

impl ModuleConfig {
    /// True when the shared structure has no codes, layers or content.
    pub fn is_empty(&self) -> (r: bool)
        ensures
            r == config_is_empty(self.deep_view()),
    {
        let building_empty = match &self.building_access {
            Some(b) => b.is_empty(),
            None => true,
        };
        let parking_empty = match &self.parking {
            Some(p) => p.is_empty(),
            None => true,
        };
        method_is_empty(&self.method) && building_empty && parking_empty && self.arrival.is_empty()
            && opt_empty(&self.smart_lock_provider_module_id) && self.primary_method
            == PrimaryMethod::Other
    }

    /// Step skeletons with a non-blank id.
    pub fn parse_steps(&self) -> (r: Vec<AccessStep>)
        ensures
            r.deep_view() == named_steps(self.arrival.steps.deep_view()),
    {
        self.arrival.parse_steps()
    }

    /// Align `primary_method` with the `method` variant.
    pub fn sync_primary_method(&mut self)
        ensures
            final(self).deep_view() == (ConfigModel {
                primary_method: method_primary(old(self).method.deep_view()),
                ..old(self).deep_view()
            }),
    {
        self.primary_method = self.method.primary_method();
    }

    /// Arrival address.
    pub fn address(&self) -> (r: &str)
        ensures
            r@ == self.arrival.address@,
    {
        self.arrival.address.as_str()
    }

    /// Door or gate code shown to the guest.
    pub fn gate_code(&self) -> (r: Option<&str>)
        ensures
            opt_view(r) == gate_code_of(self.deep_view()),
    {
        match &self.method {
            MethodFields::DoorCode { code, .. } => {
                if !blank(code.as_str()) {
                    return Some(code.as_str());
                }
            },
            _ => {},
        }
        match &self.building_access {
            Some(b) => match &b.gate_code {
                Some(g) => if !blank(g.as_str()) {
                    Some(g.as_str())
                } else {
                    None
                },
                None => None,
            },
            None => None,
        }
    }

    /// Keybox code, when the method is a keybox with a code.
    pub fn keybox_code(&self) -> (r: Option<&str>)
        ensures
            opt_view(r) == keybox_code_of(self.deep_view()),
    {
        match &self.method {
            MethodFields::Keybox { code: Some(c), .. } => if !blank(c.as_str()) {
                Some(c.as_str())
            } else {
                None
            },
            _ => None,
        }
    }

    /// Manual fallback code of a smart lock.
    pub fn smart_lock_manual_code(&self) -> (r: Option<&str>)
        ensures
            opt_view(r) == smart_lock_code_of(self.deep_view()),
    {
        match &self.method {
            MethodFields::SmartLock { manual_code: Some(c) } => if !blank(c.as_str()) {
                Some(c.as_str())
            } else {
                None
            },
            _ => None,
        }
    }

    /// Parking map link, when the layer has one.
    pub fn parking_map_url(&self) -> (r: Option<&str>)
        ensures
            opt_view(r) == parking_map_url_of(self.deep_view()),
    {
        match &self.parking {
            Some(p) => if !blank(p.map_url.as_str()) {
                Some(p.map_url.as_str())
            } else {
                None
            },
            None => None,
        }
    }

    /// Arrival video link.
    pub fn arrival_video_url(&self) -> (r: &str)
        ensures
            r@ == self.arrival.arrival_video_url@,
    {
        self.arrival.arrival_video_url.as_str()
    }
}


// ── Migration of stored documents ───────────────────────────────────────────

/// Step skeleton as stored before the texts split.
#[derive(Debug, Clone, PartialEq, Eq)]
pub struct RawStep {
    pub id: String,
    pub kind: Option<String>,
}

impl DeepView for RawStep {
    type V = AccessStepModel;

    open spec fn deep_view(&self) -> AccessStepModel {
        AccessStepModel { id: self.id@, kind: self.kind.deep_view() }
    }
}

impl Default for RawStep {
    fn default() -> (r: Self)
        ensures
            r.id@ == Seq::<char>::empty(),
            r.kind is None,
    {
        RawStep { id: String::new(), kind: None }
    }
}

/// Stored document that accepts both the current schema and the
/// pre-redesign flat fields.
#[derive(Debug, Clone, PartialEq)]
pub struct RawConfig {
    pub primary_method: Option<PrimaryMethod>,
    pub method: Option<MethodFields>,
    pub building_access: Option<BuildingAccess>,
    pub parking: Option<ParkingLayer>,
    pub arrival: Option<ArrivalGuide>,
    pub reveal_policy: Option<RevealPolicy>,
    pub smart_lock_provider_module_id: Option<String>,
    pub steps: Vec<RawStep>,
    pub steps_json: String,
    pub parking_map_url: String,
    pub arrival_video_url: String,
    pub global_note: String,
    pub address: String,
    pub gate_code: String,
    pub keybox_code: String,
    pub parking_info: String,
}

/// [`RawConfig`] with texts as character sequences.
#[verifier::ext_equal]
pub struct RawModel {
    pub primary_method: Option<PrimaryMethod>,
    pub method: Option<MethodModel>,
    pub building_access: Option<BuildingAccessModel>,
    pub parking: Option<ParkingLayerModel>,
    pub arrival: Option<ArrivalModel>,
    pub reveal_policy: Option<RevealPolicy>,
    pub smart_lock_provider_module_id: Option<Seq<char>>,
    pub steps: Seq<AccessStepModel>,
    pub steps_json: Seq<char>,
    pub parking_map_url: Seq<char>,
    pub arrival_video_url: Seq<char>,
    pub global_note: Seq<char>,
    pub address: Seq<char>,
    pub gate_code: Seq<char>,
    pub keybox_code: Seq<char>,
    pub parking_info: Seq<char>,
}

impl DeepView for RawConfig {
    type V = RawModel;

    open spec fn deep_view(&self) -> RawModel {
        RawModel {
            primary_method: self.primary_method,
            method: self.method.deep_view(),
            building_access: self.building_access.deep_view(),
            parking: self.parking.deep_view(),
            arrival: self.arrival.deep_view(),
            reveal_policy: self.reveal_policy,
            smart_lock_provider_module_id: self.smart_lock_provider_module_id.deep_view(),
            steps: self.steps.deep_view(),
            steps_json: self.steps_json@,
            parking_map_url: self.parking_map_url@,
            arrival_video_url: self.arrival_video_url@,
            global_note: self.global_note@,
            address: self.address@,
            gate_code: self.gate_code@,
            keybox_code: self.keybox_code@,
            parking_info: self.parking_info@,
        }
    }
}

impl Default for RawConfig {
    fn default() -> (r: Self)
        ensures
            r.primary_method is None,
            r.method is None,
            r.building_access is None,
            r.parking is None,
            r.arrival is None,
            r.reveal_policy is None,
            r.smart_lock_provider_module_id is None,
            r.steps@.len() == 0,
            r.steps_json@.len() == 0,
            r.parking_map_url@.len() == 0,
            r.arrival_video_url@.len() == 0,
            r.global_note@.len() == 0,
            r.address@.len() == 0,
            r.gate_code@.len() == 0,
            r.keybox_code@.len() == 0,
            r.parking_info@.len() == 0,
    {
        RawConfig {
            primary_method: None,
            method: None,
            building_access: None,
            parking: None,
            arrival: None,
            reveal_policy: None,
            smart_lock_provider_module_id: None,
            steps: Vec::new(),
            steps_json: String::new(),
            parking_map_url: String::new(),
            arrival_video_url: String::new(),
            global_note: String::new(),
            address: String::new(),
            gate_code: String::new(),
            keybox_code: String::new(),
            parking_info: String::new(),
        }
    }
}

/// Skeletons of the named raw steps, ids trimmed, in order.
pub open spec fn skeletons_of(s: Seq<AccessStepModel>) -> Seq<AccessStepModel>
    decreases s.len(),
{
    if s.len() == 0 {
        Seq::empty()
    } else {
        let rest = skeletons_of(s.drop_last());
        if !is_blank(s.last().id) {
            rest.push(AccessStepModel { id: trim(s.last().id), kind: s.last().kind })
        } else {
            rest
        }
    }
}

/// A JSON value read as an optional string field (`#[serde(default)]`):
/// absent or `null` is `Some(None)`, a string is `Some(Some(s))`, anything
/// else does not decode.
pub open spec fn opt_str_field(v: Option<JsonValue>) -> Option<Option<Seq<char>>> {
    match v {
        None => Some(None),
        Some(JsonValue::Null) => Some(None),
        Some(JsonValue::Str(s)) => Some(Some(s@)),
        _ => None,
    }
}

/// A JSON value decoded as a [`RawStep`]: an object whose `id` is absent or a
/// string and whose `kind` is absent, `null` or a string.
pub open spec fn raw_step_of(v: JsonValue) -> Option<AccessStepModel> {
    match v {
        JsonValue::Object(m) => {
            let id = member(m@, "id"@);
            let kind = opt_str_field(member(m@, "kind"@));
            match (id, kind) {
                (None, Some(k)) => Some(AccessStepModel { id: Seq::empty(), kind: k }),
                (Some(JsonValue::Str(i)), Some(k)) => Some(AccessStepModel { id: i@, kind: k }),
                _ => None,
            }
        },
        _ => None,
    }
}

/// Decoded elements of a list, or nothing when one of them does not decode.
pub open spec fn raw_steps_of_list(a: Seq<JsonValue>) -> Option<Seq<AccessStepModel>>
    decreases a.len(),
{
    if a.len() == 0 {
        Some(Seq::empty())
    } else {
        match (raw_steps_of_list(a.drop_last()), raw_step_of(a.last())) {
            (Some(rest), Some(x)) => Some(rest.push(x)),
            _ => None,
        }
    }
}

/// A JSON document decoded as a list of raw steps.
pub open spec fn raw_steps_of(v: JsonValue) -> Option<Seq<AccessStepModel>> {
    match v {
        JsonValue::Array(a) => raw_steps_of_list(a@),
        _ => None,
    }
}

/// Legacy step skeletons: the `steps` list when it has entries, else the
/// `steps_json` text decoded as a list (nothing when it does not decode).
pub open spec fn legacy_steps_of(raw: RawModel) -> Seq<AccessStepModel> {
    if raw.steps.len() > 0 {
        skeletons_of(raw.steps)
    } else if is_blank(raw.steps_json) {
        Seq::empty()
    } else {
        match json_parse_steps(trim(raw.steps_json)) {
            Some(list) => skeletons_of(list),
            None => Seq::empty(),
        }
    }
}

/// `steps_json` text decoded as a list of raw steps.
pub open spec fn json_parse_steps(text: Seq<char>) -> Option<Seq<AccessStepModel>> {
    match crate::json::json_parse(text) {
        Some(v) => raw_steps_of(v),
        None => None,
    }
}

fn raw_step_from_json(v: &JsonValue) -> (r: Option<RawStep>)
    ensures
        r.deep_view() == raw_step_of(*v),
{
    match v {
        JsonValue::Object(_) => {
            let kind: Option<Option<String>> = match v.get("kind") {
                None => Some(None),
                Some(JsonValue::Null) => Some(None),
                Some(JsonValue::Str(s)) => Some(Some(s.clone())),
                _ => None,
            };
            let id: Option<String> = match v.get("id") {
                None => Some(String::new()),
                Some(JsonValue::Str(s)) => Some(s.clone()),
                _ => None,
            };
            match (id, kind) {
                (Some(i), Some(k)) => Some(RawStep { id: i, kind: k }),
                _ => None,
            }
        },
        _ => None,
    }
}

/// `serde_json::from_value::<Vec<RawStep>>` read over the document model.
fn raw_steps_from_json(v: &JsonValue) -> (r: Option<Vec<RawStep>>)
    ensures
        r.deep_view() == raw_steps_of(*v),
{
    match v {
        JsonValue::Array(a) => {
            let mut out: Vec<RawStep> = Vec::new();
            let mut i: usize = 0;
            while i < a.len()
                invariant
                    i <= a@.len(),
                    raw_steps_of(*v) == raw_steps_of_list(a@),
                    raw_steps_of_list(a@.subrange(0, i as int)) == Some(out.deep_view()),
                decreases a.len() - i,
            {
                let ghost pre = a@.subrange(0, i + 1);
                assert(pre.drop_last() =~= a@.subrange(0, i as int));
                match raw_step_from_json(&a[i]) {
                    Some(step) => {
                        out.push(step);
                    },
                    None => {
                        proof {
                            lemma_raw_steps_fail(a@, i as int);
                        }
                        return None;
                    },
                }
                i = i + 1;
                assert(out.deep_view() =~= out.deep_view());
            }
            assert(a@.subrange(0, a@.len() as int) =~= a@);
            Some(out)
        },
        _ => None,
    }
}

proof fn lemma_raw_steps_fail(a: Seq<JsonValue>, i: int)
    requires
        0 <= i < a.len(),
        raw_step_of(a[i]) is None,
    ensures
        raw_steps_of_list(a) is None,
    decreases a.len(),
{
    if i < a.len() - 1 {
        lemma_raw_steps_fail(a.drop_last(), i);
    }
}

/// Skeletons of the named raw steps, ids trimmed.
fn skeletons_from(steps: &Vec<RawStep>) -> (r: Vec<AccessStep>)
    ensures
        r.deep_view() == skeletons_of(steps.deep_view()),
{
    let mut out: Vec<AccessStep> = Vec::new();
    let mut i: usize = 0;
    while i < steps.len()
        invariant
            i <= steps@.len(),
            out.deep_view() == skeletons_of(steps.deep_view().subrange(0, i as int)),
        decreases steps.len() - i,
    {
        let ghost pre = steps.deep_view().subrange(0, i + 1);
        assert(pre.drop_last() =~= steps.deep_view().subrange(0, i as int));
        if !blank(steps[i].id.as_str()) {
            out.push(AccessStep { id: trimmed_owned(steps[i].id.as_str()), kind: clone_opt(&steps[i].kind) });
        }
        i = i + 1;
    }
    assert(steps.deep_view().subrange(0, steps@.len() as int) =~= steps.deep_view());
    out
}

impl RawConfig {
    /// The document carries a field of the current schema.
    pub fn has_new_shape(&self) -> (r: bool)
        ensures
            r == (self.primary_method is Some || self.method is Some || self.arrival is Some),
    {
        self.primary_method.is_some() || self.method.is_some() || self.arrival.is_some()
    }

    /// Step skeletons of the pre-redesign document (`steps`, else `steps_json`).
    pub fn parse_legacy_step_skeletons(&self) -> (r: Vec<AccessStep>)
        ensures
            r.deep_view() == legacy_steps_of(self.deep_view()),
    {
        if self.steps.len() > 0 {
            return skeletons_from(&self.steps);
        }
        let raw = trim_str(self.steps_json.as_str());
        if raw.unicode_len() == 0 {
            return Vec::new();
        }
        match parse_json(raw) {
            Some(v) => match raw_steps_from_json(&v) {
                Some(list) => skeletons_from(&list),
                None => Vec::new(),
            },
            None => Vec::new(),
        }
    }
}

/// Method and building layer of the legacy keybox and gate codes. A keybox
/// number selects the keybox method, and a gate number then fills the
/// building layer; a gate number alone selects a building door.
pub open spec fn legacy_codes(keybox: Seq<char>, gate: Seq<char>) -> (
    Option<MethodModel>,
    Option<BuildingAccessModel>,
) {
    let k = trim(keybox);
    let g = trim(gate);
    if k.len() > 0 {
        (
            Some(MethodModel::Keybox { location: Seq::empty(), code: Some(k) }),
            if g.len() > 0 {
                Some(BuildingAccessModel { gate_code: Some(g), intercom: None })
            } else {
                None
            },
        )
    } else if g.len() > 0 {
        (Some(MethodModel::DoorCode { target: DoorCodeTarget::Building, code: g }), None)
    } else {
        (None, None)
    }
}

/// Map the legacy `keybox_code` / `gate_code` into a method and building layer.
pub fn method_from_legacy_codes(keybox_code: &str, gate_code: &str) -> (r: (
    Option<MethodFields>,
    Option<BuildingAccess>,
))
    ensures
        (r.0.deep_view(), r.1.deep_view()) == legacy_codes(keybox_code@, gate_code@),
{
    let keybox = trim_str(keybox_code);
    let gate = trim_str(gate_code);
    if keybox.unicode_len() > 0 {
        let building = if gate.unicode_len() > 0 {
            Some(BuildingAccess { gate_code: Some(gate.to_owned()), intercom: None })
        } else {
            None
        };
        return (
            Some(MethodFields::Keybox { location: String::new(), code: Some(keybox.to_owned()) }),
            building,
        );
    }
    if gate.unicode_len() > 0 {
        return (
            Some(MethodFields::DoorCode { target: DoorCodeTarget::Building, code: gate.to_owned() }),
            None,
        );
    }
    (None, None)
}

/// Parking layer from legacy fields: kept when it has content or `force_layer`.
pub open spec fn parking_legacy(map_url: Seq<char>, code: Option<Seq<char>>, force_layer: bool) -> Option<
    ParkingLayerModel,
> {
    let layer = ParkingLayerModel {
        map_url: trim(map_url),
        code: match code {
            Some(c) => nonempty_of(c),
            None => None,
        },
    };
    if parking_is_empty(layer) && !force_layer {
        None
    } else {
        Some(layer)
    }
}

/// Parking layer from the legacy map link and code.
pub fn parking_from_legacy(map_url: &str, code: Option<String>, force_layer: bool) -> (r: Option<
    ParkingLayer,
>)
    ensures
        r.deep_view() == parking_legacy(map_url@, code.deep_view(), force_layer),
{
    let layer = ParkingLayer { map_url: trimmed_owned(map_url), code: nonempty_opt(code) };
    if layer.is_empty() && !force_layer {
        None
    } else {
        Some(layer)
    }
}

/// Empty fields of the method variant that matches a primary method.
pub open spec fn method_default(p: PrimaryMethod) -> MethodModel {
    match p {
        PrimaryMethod::Keybox => MethodModel::Keybox { location: Seq::empty(), code: None },
        PrimaryMethod::DoorCode => MethodModel::DoorCode {
            target: DoorCodeTarget::Building,
            code: Seq::empty(),
        },
        PrimaryMethod::SmartLock => MethodModel::SmartLock { manual_code: None },
        PrimaryMethod::InPerson => MethodModel::InPerson {
            meeting_place: Seq::empty(),
            lat: None,
            lng: None,
            time_hint: None,
            contact: None,
        },
        PrimaryMethod::BuildingStaff => MethodModel::BuildingStaff {
            staff_kind: StaffKind::Reception,
            desk_location: Seq::empty(),
            hours: None,
            contact: None,
        },
        PrimaryMethod::HostGreets => MethodModel::HostGreets { contact_note: None, eta_hint: None },
        PrimaryMethod::Other => MethodModel::Other,
    }
}

/// Empty method fields for a primary method.
pub fn default_method_for(primary: PrimaryMethod) -> (r: MethodFields)
    ensures
        r.deep_view() == method_default(primary),
{
    match primary {
        PrimaryMethod::Keybox => MethodFields::Keybox { location: String::new(), code: None },
        PrimaryMethod::DoorCode => MethodFields::DoorCode {
            target: DoorCodeTarget::Building,
            code: String::new(),
        },
        PrimaryMethod::SmartLock => MethodFields::SmartLock { manual_code: None },
        PrimaryMethod::InPerson => MethodFields::InPerson {
            meeting_place: String::new(),
            lat: None,
            lng: None,
            time_hint: None,
            contact: None,
        },
        PrimaryMethod::BuildingStaff => MethodFields::BuildingStaff {
            staff_kind: StaffKind::Reception,
            desk_location: String::new(),
            hours: None,
            contact: None,
        },
        PrimaryMethod::HostGreets => MethodFields::HostGreets { contact_note: None, eta_hint: None },
        PrimaryMethod::Other => MethodFields::Other,
    }
}

/// The empty arrival guide.
pub open spec fn empty_arrival() -> ArrivalModel {
    ArrivalModel { address: Seq::empty(), steps: Seq::empty(), arrival_video_url: Seq::empty() }
}

/// Trimmed provider id, dropped when blank.
pub open spec fn provider_of(o: Option<Seq<char>>) -> Option<Seq<char>> {
    match o {
        Some(s) => nonempty_of(s),
        None => None,
    }
}

/// Migration of a document that already carries the current schema: legacy
/// flat fields only fill what the current fields leave empty, and the primary
/// method follows the method variant.
pub open spec fn new_shape_of(raw: RawModel) -> ConfigModel {
    let legacy = legacy_steps_of(raw);
    let a0 = match raw.arrival {
        Some(a) => a,
        None => empty_arrival(),
    };
    let address = if is_blank(a0.address) && !is_blank(raw.address) {
        trim(raw.address)
    } else {
        a0.address
    };
    let video = if is_blank(a0.arrival_video_url) && !is_blank(raw.arrival_video_url) {
        trim(raw.arrival_video_url)
    } else {
        a0.arrival_video_url
    };
    let steps = if a0.steps.len() == 0 {
        legacy
    } else {
        named_steps(a0.steps)
    };
    let parking = match raw.parking {
        Some(p) => Some(p),
        None => parking_legacy(raw.parking_map_url, None, !is_blank(raw.parking_info)),
    };
    let codes = legacy_codes(raw.keybox_code, raw.gate_code);
    let building = match raw.building_access {
        Some(b) => Some(b),
        None => codes.1,
    };
    let method = match raw.method {
        Some(m) => m,
        None => match codes.0 {
            Some(m) => m,
            None => match raw.primary_method {
                Some(p) => method_default(p),
                None => MethodModel::Other,
            },
        },
    };
    ConfigModel {
        primary_method: method_primary(method),
        method,
        building_access: building,
        parking,
        arrival: ArrivalModel { address, steps, arrival_video_url: video },
        reveal_policy: match raw.reveal_policy {
            Some(r) => r,
            None => RevealPolicy::DayBefore16h,
        },
        smart_lock_provider_module_id: provider_of(raw.smart_lock_provider_module_id),
    }
}

/// Migration of a pre-redesign flat document.
pub open spec fn legacy_fields_of(raw: RawModel) -> ConfigModel {
    let codes = legacy_codes(raw.keybox_code, raw.gate_code);
    let method = match codes.0 {
        Some(m) => m,
        None => MethodModel::Other,
    };
    ConfigModel {
        primary_method: method_primary(method),
        method,
        building_access: match codes.1 {
            Some(b) if building_is_empty(b) => None,
            other => other,
        },
        parking: parking_legacy(raw.parking_map_url, None, !is_blank(raw.parking_info)),
        arrival: ArrivalModel {
            address: trim(raw.address),
            steps: legacy_steps_of(raw),
            arrival_video_url: trim(raw.arrival_video_url),
        },
        reveal_policy: match raw.reveal_policy {
            Some(r) => r,
            None => RevealPolicy::DayBefore16h,
        },
        smart_lock_provider_module_id: provider_of(raw.smart_lock_provider_module_id),
    }
}

/// What a stored document migrates to.
pub open spec fn migrated(raw: RawModel) -> ConfigModel {
    if raw.primary_method is Some || raw.method is Some || raw.arrival is Some {
        new_shape_of(raw)
    } else {
        legacy_fields_of(raw)
    }
}

/// Migrate a raw (possibly legacy) document into the current configuration.
pub fn migrate_legacy(raw: RawConfig) -> (r: ModuleConfig)
    ensures
        r.deep_view() == migrated(raw.deep_view()),
{
    if raw.has_new_shape() {
        return migrate_new_shape(raw);
    }
    migrate_from_legacy_fields(raw)
}

fn migrate_new_shape(raw: RawConfig) -> (r: ModuleConfig)
    ensures
        r.deep_view() == new_shape_of(raw.deep_view()),
{
    let legacy_steps = raw.parse_legacy_step_skeletons();
    let (derived_method, derived_building) = method_from_legacy_codes(
        raw.keybox_code.as_str(),
        raw.gate_code.as_str(),
    );
    let parking_force = !blank(raw.parking_info.as_str());
    let address_blank = blank(raw.address.as_str());
    let video_blank = blank(raw.arrival_video_url.as_str());
    let ghost raw0 = raw;
    let RawConfig {
        primary_method,
        method,
        building_access,
        parking,
        arrival,
        reveal_policy,
        smart_lock_provider_module_id,
        parking_map_url,
        arrival_video_url,
        address,
        ..
    } = raw;
    let mut arrival = match arrival {
        Some(a) => a,
        None => ArrivalGuide::default(),
    };
    if blank(arrival.address.as_str()) && !address_blank {
        arrival.address = trimmed_owned(address.as_str());
    }
    if blank(arrival.arrival_video_url.as_str()) && !video_blank {
        arrival.arrival_video_url = trimmed_owned(arrival_video_url.as_str());
    }
    if arrival.steps.len() == 0 {
        arrival.steps = legacy_steps;
    } else {
        arrival.steps = keep_named_steps(&arrival.steps);
    }
    let parking = match parking {
        Some(p) => Some(p),
        None => parking_from_legacy(parking_map_url.as_str(), None, parking_force),
    };
    let building_access = match building_access {
        Some(b) => Some(b),
        None => derived_building,
    };
    let method = match method {
        Some(m) => m,
        None => match derived_method {
            Some(m) => m,
            None => match primary_method {
                Some(p) => default_method_for(p),
                None => MethodFields::Other,
            },
        },
    };
    let mut config = ModuleConfig {
        primary_method: PrimaryMethod::Other,
        method,
        building_access,
        parking,
        arrival,
        reveal_policy: match reveal_policy {
            Some(r) => r,
            None => RevealPolicy::DayBefore16h,
        },
        smart_lock_provider_module_id: nonempty_opt(smart_lock_provider_module_id),
    };
    config.sync_primary_method();
    config
}

fn migrate_from_legacy_fields(raw: RawConfig) -> (r: ModuleConfig)
    ensures
        r.deep_view() == legacy_fields_of(raw.deep_view()),
{
    let steps = raw.parse_legacy_step_skeletons();
    let (derived_method, building_access) = method_from_legacy_codes(
        raw.keybox_code.as_str(),
        raw.gate_code.as_str(),
    );
    let method = match derived_method {
        Some(m) => m,
        None => MethodFields::Other,
    };
    let primary_method = method.primary_method();
    let parking = parking_from_legacy(
        raw.parking_map_url.as_str(),
        None,
        !blank(raw.parking_info.as_str()),
    );
    let arrival = ArrivalGuide {
        address: trimmed_owned(raw.address.as_str()),
        steps,
        arrival_video_url: trimmed_owned(raw.arrival_video_url.as_str()),
    };
    let building_access = match building_access {
        Some(b) => if b.is_empty() {
            None
        } else {
            Some(b)
        },
        None => None,
    };
    ModuleConfig {
        primary_method,
        method,
        building_access,
        parking,
        arrival,
        reveal_policy: match raw.reveal_policy {
            Some(r) => r,
            None => RevealPolicy::DayBefore16h,
        },
        smart_lock_provider_module_id: nonempty_opt(raw.smart_lock_provider_module_id),
    }
}

/// Configuration from host `updateConfig` parts (current and legacy fields).
pub fn config_from_update_parts(raw: RawConfig) -> (r: ModuleConfig)
    ensures
        r.deep_view() == migrated(raw.deep_view()),
{
    migrate_legacy(raw)
}


// ── Steps resolved for one locale ───────────────────────────────────────────

/// Step with shared skeleton and the title/detail of one locale.
#[derive(Debug, Clone, PartialEq, Eq)]
pub struct ResolvedStep {
    pub id: String,
    pub kind: Option<String>,
    pub title: String,
    pub detail: Option<String>,
}

#[verifier::ext_equal]
pub struct ResolvedStepModel {
    pub id: Seq<char>,
    pub kind: Option<Seq<char>>,
    pub title: Seq<char>,
    pub detail: Option<Seq<char>>,
}

impl DeepView for ResolvedStep {
    type V = ResolvedStepModel;

    open spec fn deep_view(&self) -> ResolvedStepModel {
        ResolvedStepModel {
            id: self.id@,
            kind: self.kind.deep_view(),
            title: self.title@,
            detail: self.detail.deep_view(),
        }
    }
}

/// A skeleton merged with the step text of the same id (empty title and no
/// detail when the locale has none).
pub open spec fn resolve_one(step: AccessStepModel, texts: TextsModel) -> ResolvedStepModel {
    match step_index(texts.steps, step.id) {
        Some(i) => ResolvedStepModel {
            id: step.id,
            kind: step.kind,
            title: texts.steps[i].title,
            detail: texts.steps[i].detail,
        },
        None => ResolvedStepModel { id: step.id, kind: step.kind, title: Seq::empty(), detail: None },
    }
}

/// Named steps merged with their texts, in order.
pub open spec fn resolved_steps_of(c: ConfigModel, texts: TextsModel) -> Seq<ResolvedStepModel> {
    named_steps(c.arrival.steps).map_values(|s: AccessStepModel| resolve_one(s, texts))
}

impl ModuleConfig {
    /// Merge the shared step skeletons with the titles/details of one locale (by `id`).
    pub fn resolve_steps(&self, texts: &ModuleTexts) -> (r: Vec<ResolvedStep>)
        ensures
            r.deep_view() == resolved_steps_of(self.deep_view(), texts.deep_view()),
    {
        let steps = self.parse_steps();
        let mut out: Vec<ResolvedStep> = Vec::new();
        let mut i: usize = 0;
        while i < steps.len()
            invariant
                i <= steps@.len(),
                steps.deep_view() == named_steps(self.arrival.steps.deep_view()),
                out.deep_view() == steps.deep_view().subrange(0, i as int).map_values(
                    |s: AccessStepModel| resolve_one(s, texts.deep_view()),
                ),
            decreases steps.len() - i,
        {
            let step = &steps[i];
            let text = texts.step_by_id(step.id.as_str());
            let (title, detail) = match text {
                Some(t) => (t.title.clone(), clone_opt(&t.detail)),
                None => (String::new(), None),
            };
            let ghost r1 = resolve_one(steps.deep_view()[i as int], texts.deep_view());
            let item = ResolvedStep { id: step.id.clone(), kind: clone_opt(&step.kind), title, detail };
            proof {
                match text {
                    Some(t) => {
                        let k = step_index(texts.steps.deep_view(), step.id@)->0;
                        assert(texts.steps.deep_view()[k] == t.deep_view());
                    },
                    None => {},
                }
            }
            assert(item.deep_view() == r1);
            let ghost before = out.deep_view();
            let ghost target = steps.deep_view().subrange(0, i + 1).map_values(
                |s: AccessStepModel| resolve_one(s, texts.deep_view()),
            );
            out.push(item);
            assert(out.deep_view() =~= before.push(r1));
            assert(target =~= before.push(r1));
            proof {
                assert(steps.deep_view().subrange(0, i + 1) =~= steps.deep_view().subrange(
                    0,
                    i as int,
                ).push(steps.deep_view()[i as int]));
            }
            i = i + 1;
            assert(out.deep_view() =~= steps.deep_view().subrange(0, i as int).map_values(
                |s: AccessStepModel| resolve_one(s, texts.deep_view()),
            ));
        }
        assert(steps.deep_view().subrange(0, steps@.len() as int) =~= steps.deep_view());
        out
    }
}

/// Guest-visible content in the shared structure or the texts.
pub open spec fn has_content_of(c: ConfigModel, t: TextsModel) -> bool {
    !config_is_empty(c) || !texts_empty(t) || c.primary_method != PrimaryMethod::Other
}

/// True when shared config or locale texts have guest-visible content.
pub fn has_content(config: &ModuleConfig, texts: &ModuleTexts) -> (r: bool)
    ensures
        r == has_content_of(config.deep_view(), texts.deep_view()),
{
    !config.is_empty() || !texts.is_empty() || config.primary_method != PrimaryMethod::Other
}

/// A stored document still embeds language copy (French or English).
pub open spec fn has_embedded_texts_of(root: JsonValue) -> bool {
    !texts_empty(embedded_texts_of(root).0) || !texts_empty(embedded_texts_of(root).1)
}

/// True when the stored document still embeds language copy.
pub fn document_has_embedded_texts(root: &JsonValue) -> (r: bool)
    ensures
        r == has_embedded_texts_of(*root),
{
    let (fr, en) = extract_embedded_texts(root);
    !fr.is_empty() || !en.is_empty()
}

} // verus!
