//! Guest-page decisions of the access guide: which secrets exist and how a
//! secret is shown before and after the reveal.

use vstd::prelude::*;

use crate::access_guide::config::{
    ConfigModel, DoorCodeTarget, MethodFields, MethodModel, ModuleConfig, StaffKind,
};
use crate::text::{blank, is_blank, nonempty_of, trim, trim_str};

verus! {

/// Shown in place of a secret that is not revealed yet.
pub open spec fn secret_mask() -> Seq<char> {
    "••••••"@
}

/// A secret as shown: the secret once revealed, the mask before.
pub fn secret_display(revealed: bool, plaintext: &str) -> (r: String)
    ensures
        r@ == (if revealed {
            plaintext@
        } else {
            secret_mask()
        }),
{
    if revealed {
        plaintext.to_owned()
    } else {
        "••••••".to_owned()
    }
}

/// The method carries a code of its own.
pub open spec fn method_secret(m: MethodModel) -> bool {
    match m {
        MethodModel::Keybox { code: Some(c), .. } => !is_blank(c),
        MethodModel::DoorCode { code, .. } => !is_blank(code),
        MethodModel::SmartLock { manual_code: Some(c) } => !is_blank(c),
        _ => false,
    }
}

/// Some code is configured: the method's, the building gate's or the
/// parking's.
pub open spec fn config_has_secret(c: ConfigModel) -> bool {
    ||| method_secret(c.method)
    ||| (c.building_access matches Some(b) && b.gate_code matches Some(g) && !is_blank(g))
    ||| (c.parking matches Some(p) && p.code matches Some(k) && !is_blank(k))
}

/// The method carries a code of its own.
pub fn method_has_secret(method: &MethodFields) -> (r: bool)
    ensures
        r == method_secret(method.deep_view()),
{
    match method {
        MethodFields::Keybox { code: Some(c), .. } => !blank(c.as_str()),
        MethodFields::DoorCode { code, .. } => !blank(code.as_str()),
        MethodFields::SmartLock { manual_code: Some(c) } => !blank(c.as_str()),
        _ => false,
    }
}

/// Some code is configured (see [`config_has_secret`]).
pub fn has_any_secret(config: &ModuleConfig) -> (r: bool)
    ensures
        r == config_has_secret(config.deep_view()),
{
    if method_has_secret(&config.method) {
        return true;
    }
    let gate = match &config.building_access {
        Some(b) => match &b.gate_code {
            Some(g) => !blank(g.as_str()),
            None => false,
        },
        None => false,
    };
    if gate {
        return true;
    }
    match &config.parking {
        Some(p) => match &p.code {
            Some(k) => !blank(k.as_str()),
            None => false,
        },
        None => false,
    }
}

/// Label key of a step kind.
pub open spec fn kind_key(kind: Option<Seq<char>>) -> Seq<char> {
    let k = match kind {
        Some(s) => trim(s),
        None => Seq::empty(),
    };
    if k == "parking"@ {
        "i18n:host.step.kind.parking"@
    } else if k == "door"@ {
        "i18n:host.step.kind.door"@
    } else if k == "elevator"@ {
        "i18n:host.step.kind.elevator"@
    } else {
        "i18n:host.step.kind.other"@
    }
}

/// Label key of a step kind (see [`kind_key`]).
pub fn kind_label(kind: Option<&str>) -> (r: String)
    ensures
        r@ == kind_key(
            match kind {
                Some(s) => Some(s@),
                None => None,
            },
        ),
{
    let k: &str = match kind {
        Some(s) => trim_str(s),
        None => {
            proof {
                reveal_strlit("");
            }
            ""
        },
    };
    assert(k@ == (match kind {
        Some(s) => trim(s@),
        None => Seq::<char>::empty(),
    }));
    if crate::text::str_eq(k, "parking") {
        "i18n:host.step.kind.parking".to_owned()
    } else if crate::text::str_eq(k, "door") {
        "i18n:host.step.kind.door".to_owned()
    } else if crate::text::str_eq(k, "elevator") {
        "i18n:host.step.kind.elevator".to_owned()
    } else {
        "i18n:host.step.kind.other".to_owned()
    }
}

/// Label key of a door code target.
pub fn door_target_key(target: DoorCodeTarget) -> (r: &'static str)
    ensures
        r@ == (match target {
            DoorCodeTarget::Gate => "i18n:guest.doorCode.gate"@,
            DoorCodeTarget::Building => "i18n:guest.doorCode.building"@,
            DoorCodeTarget::Apartment => "i18n:guest.doorCode.apartment"@,
        }),
{
    match target {
        DoorCodeTarget::Gate => "i18n:guest.doorCode.gate",
        DoorCodeTarget::Building => "i18n:guest.doorCode.building",
        DoorCodeTarget::Apartment => "i18n:guest.doorCode.apartment",
    }
}

/// Label key of a staff kind.
pub fn staff_kind_key(kind: StaffKind) -> (r: &'static str)
    ensures
        r@ == (match kind {
            StaffKind::Reception => "i18n:guest.buildingStaff.reception"@,
            StaffKind::Caretaker => "i18n:guest.buildingStaff.caretaker"@,
        }),
{
    match kind {
        StaffKind::Reception => "i18n:guest.buildingStaff.reception",
        StaffKind::Caretaker => "i18n:guest.buildingStaff.caretaker",
    }
}

/// The smart-lock provider module that unlocks the door: configured (trimmed)
/// and offered only once secrets are revealed.
pub fn smart_lock_provider(config: &ModuleConfig, revealed: bool) -> (r: Option<String>)
    ensures
        r.deep_view() == (if !revealed {
            None
        } else {
            match config.deep_view().smart_lock_provider_module_id {
                Some(p) => nonempty_of(p),
                None => None,
            }
        }),
{
    if !revealed {
        return None;
    }
    match &config.smart_lock_provider_module_id {
        Some(p) => crate::text::nonempty_owned(p.as_str()),
        None => None,
    }
}

} // verus!
