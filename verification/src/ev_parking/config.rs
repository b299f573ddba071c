//! EV parking configuration and the host form that updates it.

use vstd::prelude::*;

use crate::text::{blank, is_blank, nonempty_of, nonempty_owned, trim, trim_str, trimmed_owned};
use crate::timed_reveal::RevealTiming;

verus! {

/// When the charger PIN and parking code become visible.
#[derive(Debug, Clone, Copy, PartialEq, Eq, Structural)]
pub enum RevealPolicy {
    Always,
    HoursBefore24,
    DayBefore16h,
    AtCheckin,
}

/// Wire string of a reveal policy.
pub open spec fn policy_wire(p: RevealPolicy) -> Seq<char> {
    match p {
        RevealPolicy::Always => "always"@,
        RevealPolicy::HoursBefore24 => "hours_before_24"@,
        RevealPolicy::DayBefore16h => "day_before_16h"@,
        RevealPolicy::AtCheckin => "at_checkin"@,
    }
}

/// The timing a policy stands for.
pub open spec fn policy_timing(p: RevealPolicy) -> RevealTiming {
    match p {
        RevealPolicy::Always => RevealTiming::Always,
        RevealPolicy::HoursBefore24 => RevealTiming::HoursBefore24,
        RevealPolicy::DayBefore16h => RevealTiming::DayBefore16h,
        RevealPolicy::AtCheckin => RevealTiming::AtCheckin,
    }
}

impl RevealPolicy {
    /// Wire string for the host choice list.
    pub fn as_wire(self) -> (r: &'static str)
        ensures
            r@ == policy_wire(self),
    {
        match self {
            RevealPolicy::Always => "always",
            RevealPolicy::HoursBefore24 => "hours_before_24",
            RevealPolicy::DayBefore16h => "day_before_16h",
            RevealPolicy::AtCheckin => "at_checkin",
        }
    }

    /// The timing this policy stands for.
    pub fn timing(self) -> (r: RevealTiming)
        ensures
            r == policy_timing(self),
    {
        match self {
            RevealPolicy::Always => RevealTiming::Always,
            RevealPolicy::HoursBefore24 => RevealTiming::HoursBefore24,
            RevealPolicy::DayBefore16h => RevealTiming::DayBefore16h,
            RevealPolicy::AtCheckin => RevealTiming::AtCheckin,
        }
    }

    /// The policy of a wire string (its aliases `hours_before24` and
    /// `day_before16h` included).
    pub fn from_wire(s: &str) -> (r: Option<RevealPolicy>)
        ensures
            r matches Some(p) ==> policy_wire(p) == s@ || (p == RevealPolicy::HoursBefore24 && s@
                == "hours_before24"@) || (p == RevealPolicy::DayBefore16h && s@ == "day_before16h"@),
            r is None ==> s@ != "always"@ && s@ != "hours_before_24"@ && s@ != "day_before_16h"@ && s@
                != "at_checkin"@ && s@ != "hours_before24"@ && s@ != "day_before16h"@,
    {
        if crate::text::str_eq(s, "always") {
            Some(RevealPolicy::Always)
        } else if crate::text::str_eq(s, "hours_before_24") || crate::text::str_eq(s, "hours_before24") {
            Some(RevealPolicy::HoursBefore24)
        } else if crate::text::str_eq(s, "day_before_16h") || crate::text::str_eq(s, "day_before16h") {
            Some(RevealPolicy::DayBefore16h)
        } else if crate::text::str_eq(s, "at_checkin") {
            Some(RevealPolicy::AtCheckin)
        } else {
            None
        }
    }
}

impl Default for RevealPolicy {
    fn default() -> (r: Self)
        ensures
            r == RevealPolicy::DayBefore16h,
    {
        RevealPolicy::DayBefore16h
    }
}

/// The EV parking configuration.
#[derive(Debug, Clone)]
pub struct ModuleConfig {
    pub spot_label: String,
    pub charger_pin: String,
    pub parking_code: String,
    pub map_url: Option<String>,
    pub instructions: Option<String>,
    pub reveal_policy: RevealPolicy,
}

/// [`ModuleConfig`] with texts as sequences.
pub struct ConfigModel {
    pub spot_label: Seq<char>,
    pub charger_pin: Seq<char>,
    pub parking_code: Seq<char>,
    pub map_url: Option<Seq<char>>,
    pub instructions: Option<Seq<char>>,
    pub reveal_policy: RevealPolicy,
}

impl DeepView for ModuleConfig {
    type V = ConfigModel;

    open spec fn deep_view(&self) -> ConfigModel {
        ConfigModel {
            spot_label: self.spot_label@,
            charger_pin: self.charger_pin@,
            parking_code: self.parking_code@,
            map_url: self.map_url.deep_view(),
            instructions: self.instructions.deep_view(),
            reveal_policy: self.reveal_policy,
        }
    }
}

impl Default for ModuleConfig {
    fn default() -> (r: Self)
        ensures
            r.spot_label@ == Seq::<char>::empty(),
            r.charger_pin@ == Seq::<char>::empty(),
            r.parking_code@ == Seq::<char>::empty(),
            r.map_url is None,
            r.instructions is None,
            r.reveal_policy == RevealPolicy::DayBefore16h,
    {
        ModuleConfig {
            spot_label: String::new(),
            charger_pin: String::new(),
            parking_code: String::new(),
            map_url: None,
            instructions: None,
            reveal_policy: RevealPolicy::DayBefore16h,
        }
    }
}

/// An optional text, trimmed, absent when blank.
pub open spec fn opt_text(o: Option<Seq<char>>) -> Option<Seq<char>> {
    match o {
        Some(s) => nonempty_of(s),
        None => None,
    }
}

fn opt_text_exec(o: &Option<String>) -> (r: Option<&str>)
    ensures
        r matches Some(s) ==> opt_text(o.deep_view()) == Some(s@),
        r is None ==> opt_text(o.deep_view()) is None,
{
    match o {
        Some(s) => {
            let t = trim_str(s.as_str());
            if t.unicode_len() == 0 {
                None
            } else {
                Some(t)
            }
        },
        None => None,
    }
}

impl ModuleConfig {
    /// Nothing to show: spot, charger PIN and parking code all blank (a map
    /// link or instructions alone do not count).
    pub fn is_empty(&self) -> (r: bool)
        ensures
            r == (is_blank(self.spot_label@) && is_blank(self.charger_pin@) && is_blank(
                self.parking_code@,
            )),
    {
        blank(self.spot_label.as_str()) && blank(self.charger_pin.as_str()) && blank(
            self.parking_code.as_str(),
        )
    }

    /// The map link, trimmed, when not blank.
    pub fn map_url_text(&self) -> (r: Option<&str>)
        ensures
            r matches Some(s) ==> opt_text(self.map_url.deep_view()) == Some(s@),
            r is None ==> opt_text(self.map_url.deep_view()) is None,
    {
        opt_text_exec(&self.map_url)
    }

    /// The instructions, trimmed, when not blank.
    pub fn instructions_text(&self) -> (r: Option<&str>)
        ensures
            r matches Some(s) ==> opt_text(self.instructions.deep_view()) == Some(s@),
            r is None ==> opt_text(self.instructions.deep_view()) is None,
    {
        opt_text_exec(&self.instructions)
    }
}

/// The host form.
#[derive(Debug, Clone)]
pub struct UpdateConfigArgs {
    pub spot_label: String,
    pub charger_pin: String,
    pub parking_code: String,
    pub map_url: String,
    pub instructions: String,
    pub reveal_policy: RevealPolicy,
}

/// The configuration the form stores: the spot trimmed; a blank PIN or code
/// keeps the stored one (the form never shows secrets back); links and
/// instructions trimmed, dropped when blank.
pub open spec fn updated_config(existing: ConfigModel, a: UpdateConfigArgs) -> ConfigModel {
    ConfigModel {
        spot_label: trim(a.spot_label@),
        charger_pin: if is_blank(a.charger_pin@) {
            existing.charger_pin
        } else {
            a.charger_pin@
        },
        parking_code: if is_blank(a.parking_code@) {
            existing.parking_code
        } else {
            a.parking_code@
        },
        map_url: nonempty_of(a.map_url@),
        instructions: nonempty_of(a.instructions@),
        reveal_policy: a.reveal_policy,
    }
}

/// The configuration the host form stores (see [`updated_config`]).
pub fn update_config(existing: &ModuleConfig, args: UpdateConfigArgs) -> (r: ModuleConfig)
    ensures
        r.deep_view() == updated_config(existing.deep_view(), args),
{
    let charger_pin = if blank(args.charger_pin.as_str()) {
        existing.charger_pin.clone()
    } else {
        args.charger_pin.clone()
    };
    let parking_code = if blank(args.parking_code.as_str()) {
        existing.parking_code.clone()
    } else {
        args.parking_code.clone()
    };
    ModuleConfig {
        spot_label: trimmed_owned(args.spot_label.as_str()),
        charger_pin,
        parking_code,
        map_url: optional_trimmed(args.map_url.as_str()),
        instructions: optional_trimmed(args.instructions.as_str()),
        reveal_policy: args.reveal_policy,
    }
}

/// A form text trimmed, dropped when blank.
pub fn optional_trimmed(value: &str) -> (r: Option<String>)
    ensures
        r.deep_view() == nonempty_of(value@),
{
    nonempty_owned(value)
}

/// The emails that carry the spot: no template named, `arrival` and
/// `arrival-day`.
pub open spec fn spot_template(template: Option<Seq<char>>) -> bool {
    match template {
        None => true,
        Some(t) => t == "arrival"@ || t == "arrival-day"@,
    }
}

/// Whether the email template (its wire id) carries the spot.
pub fn template_wants_spot(template: Option<&str>) -> (r: bool)
    ensures
        r == spot_template(crate::access_guide::config::opt_view(template)),
{
    match template {
        None => true,
        Some(t) => crate::text::str_eq(t, "arrival") || crate::text::str_eq(t, "arrival-day"),
    }
}

/// The spot shown in arrival emails, when the template asks for it and one
/// is set.
pub fn email_spot(template_wants_spot: bool, config: &ModuleConfig) -> (r: Option<String>)
    ensures
        r.deep_view() == (if template_wants_spot {
            nonempty_of(config.spot_label@)
        } else {
            None
        }),
{
    if !template_wants_spot {
        return None;
    }
    nonempty_owned(config.spot_label.as_str())
}

/// The host form as shown for a configuration: its values, with the PIN and
/// the parking code left empty (secrets are never shown back).
pub open spec fn form_args_of(c: ConfigModel) -> (Seq<char>, Seq<char>, Seq<char>, Seq<char>, Seq<char>, RevealPolicy) {
    (
        c.spot_label,
        Seq::empty(),
        Seq::empty(),
        match c.map_url {
            Some(u) => u,
            None => Seq::empty(),
        },
        match c.instructions {
            Some(i) => i,
            None => Seq::empty(),
        },
        c.reveal_policy,
    )
}

/// The fields the host form shows and submits (see [`form_args_of`]).
pub fn host_form_args(config: &ModuleConfig) -> (r: UpdateConfigArgs)
    ensures
        (r.spot_label@, r.charger_pin@, r.parking_code@, r.map_url@, r.instructions@, r.reveal_policy)
            == form_args_of(config.deep_view()),
{
    UpdateConfigArgs {
        spot_label: config.spot_label.clone(),
        charger_pin: String::new(),
        parking_code: String::new(),
        map_url: match &config.map_url {
            Some(u) => u.clone(),
            None => String::new(),
        },
        instructions: match &config.instructions {
            Some(i) => i.clone(),
            None => String::new(),
        },
        reveal_policy: config.reveal_policy,
    }
}

/// Saving the host form as it is shown keeps the stored PIN and parking
/// code, though the form never holds them.
pub proof fn lemma_unchanged_form_keeps_secrets(c: ConfigModel, a: UpdateConfigArgs)
    requires
        (a.spot_label@, a.charger_pin@, a.parking_code@, a.map_url@, a.instructions@, a.reveal_policy)
            == form_args_of(c),
    ensures
        updated_config(c, a).charger_pin == c.charger_pin,
        updated_config(c, a).parking_code == c.parking_code,
        updated_config(c, a).reveal_policy == c.reveal_policy,
{
}

} // verus!
