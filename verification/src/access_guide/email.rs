//! Snippets for the platform's guest emails (`stay-link`, `arrival`,
//! `arrival-day`, `new-code`): the arrival callout, the entry code and its
//! label. The reveal timing is applied here as on the guest pages: while
//! secrets are hidden no plaintext code is returned.

use vstd::prelude::*;

use crate::access_guide::config::{
    method_primary, ConfigModel, DoorCodeTarget, MethodFields, MethodModel, ModuleConfig,
    PrimaryMethod, RevealPolicy,
};
use crate::text::{ascii_lower, blank, chars_of, is_blank, nonempty_of, str_eq, trim, trim_str};
use crate::timed_reveal::{
    available_from_text, evaluate_reveal, format_available_from, reveal_decision,
    RevealDecision, RevealTiming,
};

verus! {

/// The timing a policy stands for.
pub open spec fn timing_of(p: RevealPolicy) -> RevealTiming {
    match p {
        RevealPolicy::Always => RevealTiming::Always,
        RevealPolicy::HoursBefore24 => RevealTiming::HoursBefore24,
        RevealPolicy::DayBefore16h => RevealTiming::DayBefore16h,
        RevealPolicy::AtCheckin => RevealTiming::AtCheckin,
    }
}

pub(crate) fn timing_exec(p: RevealPolicy) -> (r: RevealTiming)
    ensures
        r == timing_of(p),
{
    match p {
        RevealPolicy::Always => RevealTiming::Always,
        RevealPolicy::HoursBefore24 => RevealTiming::HoursBefore24,
        RevealPolicy::DayBefore16h => RevealTiming::DayBefore16h,
        RevealPolicy::AtCheckin => RevealTiming::AtCheckin,
    }
}

/// English copy for locales starting with `en` (any ASCII case).
pub open spec fn is_en(locale: Seq<char>) -> bool {
    locale.len() >= 2 && ascii_lower(locale[0]) == 'e' && ascii_lower(locale[1]) == 'n'
}

/// English copy for locales starting with `en`.
pub fn locale_is_en(locale: &str) -> (r: bool)
    ensures
        r == is_en(locale@),
{
    let c = chars_of(locale);
    c.len() >= 2 && crate::text::to_ascii_lower(c[0]) == 'e' && crate::text::to_ascii_lower(c[1]) == 'n'
}

/// The entry code guests use: the method's own code (keybox, door, smart
/// lock manual code), else the building gate code; trimmed, never blank.
pub open spec fn entry_code_of(c: ConfigModel) -> Option<Seq<char>> {
    let gate = match c.building_access {
        Some(b) => match b.gate_code {
            Some(g) => nonempty_of(g),
            None => None,
        },
        None => None,
    };
    match c.method {
        MethodModel::Keybox { code: Some(k), .. } => if is_blank(k) {
            gate
        } else {
            Some(trim(k))
        },
        MethodModel::DoorCode { code, .. } => if is_blank(code) {
            gate
        } else {
            Some(trim(code))
        },
        MethodModel::SmartLock { manual_code: Some(k) } => if is_blank(k) {
            gate
        } else {
            Some(trim(k))
        },
        _ => gate,
    }
}

/// The entry code (see [`entry_code_of`]).
pub fn extract_entry_code(config: &ModuleConfig) -> (r: Option<String>)
    ensures
        r.deep_view() == entry_code_of(config.deep_view()),
{
    let own: Option<&String> = match &config.method {
        MethodFields::Keybox { code: Some(k), .. } => Some(k),
        MethodFields::DoorCode { code, .. } => Some(code),
        MethodFields::SmartLock { manual_code: Some(k) } => Some(k),
        _ => None,
    };
    match own {
        Some(k) => if !blank(k.as_str()) {
            return Some(trim_str(k.as_str()).to_owned());
        },
        None => {},
    }
    match &config.building_access {
        Some(b) => match &b.gate_code {
            Some(g) => crate::text::nonempty_owned(g.as_str()),
            None => None,
        },
        None => None,
    }
}

/// Label of a door code.
pub open spec fn door_label(target: DoorCodeTarget, en: bool) -> Seq<char> {
    match (en, target) {
        (true, DoorCodeTarget::Gate) => "Gate code"@,
        (false, DoorCodeTarget::Gate) => "Code portail"@,
        (true, DoorCodeTarget::Building) => "Building code"@,
        (false, DoorCodeTarget::Building) => "Code immeuble"@,
        (true, DoorCodeTarget::Apartment) => "Apartment code"@,
        (false, DoorCodeTarget::Apartment) => "Code appartement"@,
    }
}

/// Label of a door code (see [`door_label`]).
pub fn door_code_label(target: DoorCodeTarget, en: bool) -> (r: String)
    ensures
        r@ == door_label(target, en),
{
    match (en, target) {
        (true, DoorCodeTarget::Gate) => "Gate code".to_owned(),
        (false, DoorCodeTarget::Gate) => "Code portail".to_owned(),
        (true, DoorCodeTarget::Building) => "Building code".to_owned(),
        (false, DoorCodeTarget::Building) => "Code immeuble".to_owned(),
        (true, DoorCodeTarget::Apartment) => "Apartment code".to_owned(),
        (false, DoorCodeTarget::Apartment) => "Code appartement".to_owned(),
    }
}

/// Label of the entry code in the email.
pub open spec fn code_label(c: ConfigModel, en: bool) -> Seq<char> {
    match c.method {
        MethodModel::Keybox { .. } => if en {
            "Keybox code"@
        } else {
            "Code boîte à clés"@
        },
        MethodModel::DoorCode { target, .. } => door_label(target, en),
        _ => if en {
            "Access code"@
        } else {
            "Code d'accès"@
        },
    }
}

/// Label of the entry code (see [`code_label`]).
pub fn access_code_label(config: &ModuleConfig, en: bool) -> (r: String)
    ensures
        r@ == code_label(config.deep_view(), en),
{
    match &config.method {
        MethodFields::Keybox { .. } => if en {
            "Keybox code".to_owned()
        } else {
            "Code boîte à clés".to_owned()
        },
        MethodFields::DoorCode { target, .. } => door_code_label(*target, en),
        _ => if en {
            "Access code".to_owned()
        } else {
            "Code d'accès".to_owned()
        },
    }
}

/// The check-in time shown: the formatted time given (trimmed), else a
/// generic phrase.
pub open spec fn time_label(formatted: Option<Seq<char>>, en: bool) -> Seq<char> {
    match formatted {
        Some(f) if !is_blank(f) => trim(f),
        _ => if en {
            "check-in time"@
        } else {
            "l'heure d'arrivée"@
        },
    }
}

/// `pre + mid + post`.
fn wrap(pre: &str, mid: &str, post: &str) -> (r: String)
    ensures
        r@ == pre@ + mid@ + post@,
{
    let mut s = pre.to_owned();
    s.append(mid);
    s.append(post);
    s
}

/// The check-in time shown (see [`time_label`]).
pub fn checkin_time_label(formatted: Option<&str>, en: bool) -> (r: String)
    ensures
        r@ == time_label(
            match formatted {
                Some(f) => Some(f@),
                None => None,
            },
            en,
        ),
{
    match formatted {
        Some(f) => if !blank(f) {
            return trim_str(f).to_owned();
        },
        None => {},
    }
    if en {
        "check-in time".to_owned()
    } else {
        "l'heure d'arrivée".to_owned()
    }
}

/// The "not yet" sentence of a locked code, with the instant when known.
pub open spec fn locked_text(en: bool, when: Option<Seq<char>>) -> Seq<char> {
    match when {
        Some(w) => if en {
            "Available from "@ + w + "."@
        } else {
            "Disponible à partir du "@ + w + "."@
        },
        None => if en {
            "Access details will be available closer to check-in."@
        } else {
            "Les détails d'accès seront disponibles à l'approche de votre arrivée."@
        },
    }
}

/// The "not yet" sentence of a locked code (see [`locked_text`]).
pub fn locked_message(en: bool, when: Option<&str>) -> (r: String)
    ensures
        r@ == locked_text(
            en,
            match when {
                Some(w) => Some(w@),
                None => None,
            },
        ),
{
    match when {
        Some(w) => if en {
            wrap("Available from ", w, ".")
        } else {
            wrap("Disponible à partir du ", w, ".")
        },
        None => if en {
            "Access details will be available closer to check-in.".to_owned()
        } else {
            "Les détails d'accès seront disponibles à l'approche de votre arrivée.".to_owned()
        },
    }
}

/// The callout of the configured method (`has_code`: a revealed code is
/// sent below it).
pub open spec fn method_text(c: ConfigModel, en: bool, time: Seq<char>, has_code: bool) -> Seq<char> {
    match c.method {
        MethodModel::Keybox { .. } => if has_code {
            if en {
                "Self check-in: the code below opens the keybox from "@ + time
                    + ". No need to wait for the host."@
            } else {
                "Arrivée autonome : le code ci-dessous ouvre la boîte à clés dès "@ + time
                    + ". Pas besoin d'attendre l'hôte."@
            }
        } else if en {
            "Self check-in from "@ + time + ". Access instructions are on your stay page."@
        } else {
            "Arrivée autonome dès "@ + time + ". Les instructions d'accès sont sur votre page de séjour."@
        },
        MethodModel::DoorCode { .. } => if has_code {
            if en {
                "Self check-in: use the code below from "@ + time + ". No need to wait for the host."@
            } else {
                "Arrivée autonome : utilisez le code ci-dessous dès "@ + time
                    + ". Pas besoin d'attendre l'hôte."@
            }
        } else if en {
            "Self check-in from "@ + time + ". Access details are on your stay page."@
        } else {
            "Arrivée autonome dès "@ + time + ". Retrouvez les détails d'accès sur votre page de séjour."@
        },
        MethodModel::SmartLock { .. } => if has_code {
            if en {
                "Self check-in: the code below unlocks the door from "@ + time + "."@
            } else {
                "Arrivée autonome : le code ci-dessous déverrouille la serrure dès "@ + time + "."@
            }
        } else if en {
            "Self check-in via smart lock from "@ + time + ". Open your stay page to unlock."@
        } else {
            "Arrivée autonome via serrure connectée dès "@ + time
                + ". Ouvrez votre page de séjour pour déverrouiller."@
        },
        MethodModel::InPerson { meeting_place, .. } => {
            let place = trim(meeting_place);
            if place.len() == 0 {
                if en {
                    "In-person handover on arrival (from "@ + time + ")."@
                } else {
                    "Accueil en personne à votre arrivée (dès "@ + time + ")."@
                }
            } else if en {
                "Meet at « "@ + place + " » from "@ + time + " to collect the keys."@
            } else {
                "Rendez-vous à « "@ + place + " » dès "@ + time + " pour récupérer les clés."@
            }
        },
        MethodModel::BuildingStaff { .. } => if en {
            "Check in at the building desk from "@ + time + " to get the keys."@
        } else {
            "Présentez-vous à l'accueil du bâtiment dès "@ + time + " pour obtenir les clés."@
        },
        MethodModel::HostGreets { .. } => if en {
            "Your host greets you on arrival (from "@ + time + ")."@
        } else {
            "Votre hôte vous accueille à l'arrivée (dès "@ + time + ")."@
        },
        MethodModel::Other => if has_code {
            if en {
                "Here is your access code, valid from "@ + time + "."@
            } else {
                "Voici votre code d'accès, valable dès "@ + time + "."@
            }
        } else if en {
            "Access details are on your stay page."@
        } else {
            "Retrouvez les infos d'accès sur votre page de séjour."@
        },
    }
}

/// The callout of the configured method (see [`method_text`]).
pub fn method_callout(config: &ModuleConfig, en: bool, time: &str, has_code: bool) -> (r: String)
    ensures
        r@ == method_text(config.deep_view(), en, time@, has_code),
{
    let r = match &config.method {
        MethodFields::Keybox { .. } => if has_code {
            if en {
                wrap("Self check-in: the code below opens the keybox from ", time, ". No need to wait for the host.")
            } else {
                wrap(
                    "Arrivée autonome : le code ci-dessous ouvre la boîte à clés dès ",
                    time,
                    ". Pas besoin d'attendre l'hôte.",
                )
            }
        } else if en {
            wrap("Self check-in from ", time, ". Access instructions are on your stay page.")
        } else {
            wrap("Arrivée autonome dès ", time, ". Les instructions d'accès sont sur votre page de séjour.")
        },
        MethodFields::DoorCode { .. } => if has_code {
            if en {
                wrap("Self check-in: use the code below from ", time, ". No need to wait for the host.")
            } else {
                wrap("Arrivée autonome : utilisez le code ci-dessous dès ", time, ". Pas besoin d'attendre l'hôte.")
            }
        } else if en {
            wrap("Self check-in from ", time, ". Access details are on your stay page.")
        } else {
            wrap("Arrivée autonome dès ", time, ". Retrouvez les détails d'accès sur votre page de séjour.")
        },
        MethodFields::SmartLock { .. } => if has_code {
            if en {
                wrap("Self check-in: the code below unlocks the door from ", time, ".")
            } else {
                wrap("Arrivée autonome : le code ci-dessous déverrouille la serrure dès ", time, ".")
            }
        } else if en {
            wrap("Self check-in via smart lock from ", time, ". Open your stay page to unlock.")
        } else {
            wrap(
                "Arrivée autonome via serrure connectée dès ",
                time,
                ". Ouvrez votre page de séjour pour déverrouiller.",
            )
        },
        MethodFields::InPerson { meeting_place, .. } => {
            let place = trim_str(meeting_place.as_str());
            if place.unicode_len() == 0 {
                if en {
                    wrap("In-person handover on arrival (from ", time, ").")
                } else {
                    wrap("Accueil en personne à votre arrivée (dès ", time, ").")
                }
            } else if en {
                let mut s = wrap("Meet at « ", place, " » from ");
                s.append(time);
                s.append(" to collect the keys.");
                s
            } else {
                let mut s = wrap("Rendez-vous à « ", place, " » dès ");
                s.append(time);
                s.append(" pour récupérer les clés.");
                s
            }
        },
        MethodFields::BuildingStaff { .. } => if en {
            wrap("Check in at the building desk from ", time, " to get the keys.")
        } else {
            wrap("Présentez-vous à l'accueil du bâtiment dès ", time, " pour obtenir les clés.")
        },
        MethodFields::HostGreets { .. } => if en {
            wrap("Your host greets you on arrival (from ", time, ").")
        } else {
            wrap("Votre hôte vous accueille à l'arrivée (dès ", time, ").")
        },
        MethodFields::Other => if has_code {
            if en {
                wrap("Here is your access code, valid from ", time, ".")
            } else {
                wrap("Voici votre code d'accès, valable dès ", time, ".")
            }
        } else if en {
            "Access details are on your stay page.".to_owned()
        } else {
            "Retrouvez les infos d'accès sur votre page de séjour.".to_owned()
        },
    };
    assert(r@ =~= method_text(config.deep_view(), en, time@, has_code));
    r
}

/// The arrival callout: while a configured code is still hidden, a
/// self-check-in method says when it becomes available (never "the code
/// below"); otherwise the method's own callout.
pub open spec fn callout_text(
    c: ConfigModel,
    en: bool,
    time: Seq<char>,
    has_revealed_code: bool,
    revealed: bool,
    when: Option<Seq<char>>,
) -> Seq<char> {
    if !revealed && entry_code_of(c) is Some {
        let locked = locked_text(en, when);
        match method_primary(c.method) {
            PrimaryMethod::Keybox | PrimaryMethod::DoorCode | PrimaryMethod::SmartLock => if en {
                "Self check-in from "@ + time + ". "@ + locked + " Full access details are on your stay page."@
            } else {
                "Arrivée autonome dès "@ + time + ". "@ + locked
                    + " Les détails d'accès sont sur votre page de séjour."@
            },
            _ => method_text(c, en, time, false),
        }
    } else {
        method_text(c, en, time, has_revealed_code)
    }
}

/// The arrival callout (see [`callout_text`]).
pub fn arrival_callout(
    config: &ModuleConfig,
    en: bool,
    time: &str,
    has_revealed_code: bool,
    revealed: bool,
    when: Option<&str>,
) -> (r: String)
    ensures
        r@ == callout_text(
            config.deep_view(),
            en,
            time@,
            has_revealed_code,
            revealed,
            match when {
                Some(w) => Some(w@),
                None => None,
            },
        ),
{
    if !revealed && extract_entry_code(config).is_some() {
        let locked = locked_message(en, when);
        match config.method.primary_method() {
            PrimaryMethod::Keybox | PrimaryMethod::DoorCode | PrimaryMethod::SmartLock => {
                let mut s = if en {
                    wrap("Self check-in from ", time, ". ")
                } else {
                    wrap("Arrivée autonome dès ", time, ". ")
                };
                s.append(locked.as_str());
                if en {
                    s.append(" Full access details are on your stay page.");
                } else {
                    s.append(" Les détails d'accès sont sur votre page de séjour.");
                }
                s
            },
            _ => method_callout(config, en, time, false),
        }
    } else {
        method_callout(config, en, time, has_revealed_code)
    }
}

/// Email-ready access-guide contribution.
#[derive(Debug)]
pub struct EmailContextResponse {
    pub arrival_callout: Option<String>,
    pub entry_access_code: Option<String>,
    pub access_code_label: Option<String>,
    pub secrets_revealed: bool,
    /// Reveal instant (Unix seconds), when there is one.
    pub reveal_available_from: Option<i64>,
}

/// [`EmailContextResponse`] with texts as sequences.
pub struct EmailModel {
    pub arrival_callout: Option<Seq<char>>,
    pub entry_access_code: Option<Seq<char>>,
    pub access_code_label: Option<Seq<char>>,
    pub secrets_revealed: bool,
    pub reveal_available_from: Option<i64>,
}

impl DeepView for EmailContextResponse {
    type V = EmailModel;

    open spec fn deep_view(&self) -> EmailModel {
        EmailModel {
            arrival_callout: self.arrival_callout.deep_view(),
            entry_access_code: self.entry_access_code.deep_view(),
            access_code_label: self.access_code_label.deep_view(),
            secrets_revealed: self.secrets_revealed,
            reveal_available_from: self.reveal_available_from,
        }
    }
}

/// Keeps a text unless it is blank.
pub open spec fn unless_blank(s: Seq<char>) -> Option<Seq<char>> {
    if is_blank(s) {
        None
    } else {
        Some(s)
    }
}

/// The templates that carry the callout (an absent key counts as one).
pub open spec fn wants_callout(template: Seq<char>) -> bool {
    template == "stay-link"@ || template == "arrival"@ || template == "new-code"@ || template.len() == 0
}

/// The local date and time of the reveal instant (`dd/mm/yyyy hh:mm`).
pub open spec fn when_text(at: Option<i64>, tz: Seq<char>) -> Option<Seq<char>> {
    match at {
        Some(a) => available_from_text(a, tz),
        None => None,
    }
}

/// The email snippets for a template (its key trimmed), given the reveal
/// decision: the callout for `stay-link`, `arrival`, `new-code` (and no
/// key), the code for those and `arrival-day`; the code only once revealed,
/// its label once revealed or when a code is configured.
pub open spec fn email_of(
    c: ConfigModel,
    template: Seq<char>,
    formatted_time: Option<Seq<char>>,
    locale: Seq<char>,
    d: RevealDecision,
    tz: Seq<char>,
) -> EmailModel {
    let t = trim(template);
    let callout = wants_callout(t);
    let wants_code = callout || t == "arrival-day"@;
    if !wants_code {
        EmailModel {
            arrival_callout: None,
            entry_access_code: None,
            access_code_label: None,
            secrets_revealed: d.revealed,
            reveal_available_from: d.available_from,
        }
    } else {
        let en = is_en(locale);
        let time = time_label(formatted_time, en);
        let plaintext = if d.revealed {
            entry_code_of(c)
        } else {
            None
        };
        EmailModel {
            arrival_callout: if callout {
                unless_blank(callout_text(c, en, time, plaintext is Some, d.revealed, when_text(d.available_from, tz)))
            } else {
                None
            },
            entry_access_code: plaintext,
            access_code_label: if d.revealed || entry_code_of(c) is Some {
                unless_blank(code_label(c, en))
            } else {
                None
            },
            secrets_revealed: d.revealed,
            reveal_available_from: d.available_from,
        }
    }
}

fn unless_blank_exec(s: String) -> (r: Option<String>)
    ensures
        r.deep_view() == unless_blank(s@),
{
    if blank(s.as_str()) {
        None
    } else {
        Some(s)
    }
}

/// The email snippets for a template given the reveal decision (see
/// [`email_of`]).
pub fn email_for_decision(
    config: &ModuleConfig,
    template_key: Option<&str>,
    checkin_time_formatted: Option<&str>,
    locale: &str,
    decision: RevealDecision,
    property_timezone: &str,
) -> (r: EmailContextResponse)
    ensures
        r.deep_view() == email_of(
            config.deep_view(),
            match template_key {
                Some(t) => t@,
                None => Seq::empty(),
            },
            match checkin_time_formatted {
                Some(f) => Some(f@),
                None => None,
            },
            locale@,
            decision,
            property_timezone@,
        ),
{
    let template: &str = match template_key {
        Some(t) => trim_str(t),
        None => {
            proof {
                reveal_strlit("");
                assert(trim(Seq::<char>::empty()) =~= Seq::<char>::empty());
            }
            ""
        },
    };
    let callout = str_eq(template, "stay-link") || str_eq(template, "arrival") || str_eq(template, "new-code")
        || template.unicode_len() == 0;
    let wants_code = callout || str_eq(template, "arrival-day");
    if !wants_code {
        return EmailContextResponse {
            arrival_callout: None,
            entry_access_code: None,
            access_code_label: None,
            secrets_revealed: decision.revealed,
            reveal_available_from: decision.available_from,
        };
    }
    let en = locale_is_en(locale);
    let time = checkin_time_label(checkin_time_formatted, en);
    let configured = extract_entry_code(config);
    let has_configured = configured.is_some();
    let plaintext = if decision.revealed {
        configured
    } else {
        None
    };
    let when: Option<String> = match decision.available_from {
        Some(a) => format_available_from(a, property_timezone),
        None => None,
    };
    let when_ref: Option<&str> = match &when {
        Some(w) => Some(w.as_str()),
        None => None,
    };
    let arrival = if callout {
        unless_blank_exec(arrival_callout(
            config,
            en,
            time.as_str(),
            plaintext.is_some(),
            decision.revealed,
            when_ref,
        ))
    } else {
        None
    };
    let label = if decision.revealed || has_configured {
        unless_blank_exec(access_code_label(config, en))
    } else {
        None
    };
    EmailContextResponse {
        arrival_callout: arrival,
        entry_access_code: plaintext,
        access_code_label: label,
        secrets_revealed: decision.revealed,
        reveal_available_from: decision.available_from,
    }
}

/// The stay's locale: the override (trimmed) when not blank, else the
/// context's.
pub fn email_locale<'a>(override_locale: Option<&'a str>, ctx_locale: &'a str) -> (r: &'a str)
    ensures
        r@ == (match override_locale {
            Some(o) => if is_blank(o@) {
                ctx_locale@
            } else {
                trim(o@)
            },
            None => ctx_locale@,
        }),
{
    match override_locale {
        Some(o) => {
            let t = trim_str(o);
            if t.unicode_len() == 0 {
                ctx_locale
            } else {
                t
            }
        },
        None => ctx_locale,
    }
}

/// The property's time zone: its own, else the context's, else
/// `Europe/Paris` (each trimmed).
pub fn property_timezone(property_tz: &str, ctx_tz: &str) -> (r: String)
    ensures
        r@ == (if !is_blank(property_tz@) {
            trim(property_tz@)
        } else if !is_blank(ctx_tz@) {
            trim(ctx_tz@)
        } else {
            "Europe/Paris"@
        }),
{
    if !blank(property_tz) {
        trim_str(property_tz).to_owned()
    } else if !blank(ctx_tz) {
        trim_str(ctx_tz).to_owned()
    } else {
        "Europe/Paris".to_owned()
    }
}

/// Reveal-aware email snippets from the configuration and the stay: the
/// decision of the configured timing at `now` for the check-in, then
/// [`email_of`].
pub fn build_email_context(
    config: &ModuleConfig,
    template_key: Option<&str>,
    checkin_time_formatted: Option<&str>,
    locale: &str,
    now: i64,
    checkin_at: Option<i64>,
    property_tz: &str,
) -> (r: EmailContextResponse)
    ensures
        r.deep_view() == email_of(
            config.deep_view(),
            match template_key {
                Some(t) => t@,
                None => Seq::empty(),
            },
            match checkin_time_formatted {
                Some(f) => Some(f@),
                None => None,
            },
            locale@,
            reveal_decision(timing_of(config.reveal_policy), now, checkin_at, property_tz@),
            property_tz@,
        ),
{
    let decision = evaluate_reveal(timing_exec(config.reveal_policy), now, checkin_at, property_tz);
    email_for_decision(config, template_key, checkin_time_formatted, locale, decision, property_tz)
}

/// No plaintext code while locked: whatever the template, locale or
/// configuration, an email built while the secrets are hidden carries no
/// entry code, and it reports the decision it was built with.
pub proof fn lemma_locked_email_has_no_code(
    c: ConfigModel,
    template: Seq<char>,
    formatted_time: Option<Seq<char>>,
    locale: Seq<char>,
    d: RevealDecision,
    tz: Seq<char>,
)
    ensures
        !d.revealed ==> email_of(c, template, formatted_time, locale, d, tz).entry_access_code is None,
        email_of(c, template, formatted_time, locale, d, tz).secrets_revealed == d.revealed,
        email_of(c, template, formatted_time, locale, d, tz).reveal_available_from == d.available_from,
        email_of(c, template, formatted_time, locale, d, tz).entry_access_code matches Some(k) ==> d.revealed
            && entry_code_of(c) == Some(k),
{
}

/// The guest's locked-codes message: none once revealed, else the message
/// with the local reveal date and time when known.
pub open spec fn locked_banner_text(d: RevealDecision, tz: Seq<char>, en: bool) -> Option<Seq<char>> {
    if d.revealed {
        None
    } else {
        Some(locked_text(en, when_text(d.available_from, tz)))
    }
}

/// The guest's locked-codes message (see [`locked_banner_text`]).
pub fn locked_banner(decision: &RevealDecision, property_timezone: &str, en: bool) -> (r: Option<String>)
    ensures
        r.deep_view() == locked_banner_text(*decision, property_timezone@, en),
{
    if decision.revealed {
        return None;
    }
    let when: Option<String> = match decision.available_from {
        Some(a) => format_available_from(a, property_timezone),
        None => None,
    };
    let when_ref: Option<&str> = match &when {
        Some(w) => Some(w.as_str()),
        None => None,
    };
    Some(locked_message(en, when_ref))
}

/// The building gate code as a fallback entry code: trimmed, when set and
/// not blank.
pub open spec fn gate_fallback(c: ConfigModel) -> Option<Seq<char>> {
    match c.building_access {
        Some(b) => match b.gate_code {
            Some(g) => if is_blank(g) {
                None
            } else {
                Some(trim(g))
            },
            None => None,
        },
        None => None,
    }
}

/// The method's own code, when it has one that is not blank.
pub open spec fn own_code(m: MethodModel) -> Option<Seq<char>> {
    match m {
        MethodModel::Keybox { code: Some(k), .. } => if is_blank(k) { None } else { Some(k) },
        MethodModel::DoorCode { code, .. } => if is_blank(code) { None } else { Some(code) },
        MethodModel::SmartLock { manual_code: Some(k) } => if is_blank(k) { None } else { Some(k) },
        _ => None,
    }
}

/// Guest emails carry the access method's own secret (keybox, door, or the
/// smart lock's fallback entry) trimmed, whatever the building gate holds.
/// Otherwise they carry the building gate's. What is sent is never blank.
pub proof fn lemma_entry_code_prefers_method_code(c: ConfigModel)
    ensures
        own_code(c.method) matches Some(k) ==> entry_code_of(c) == Some(trim(k)),
        own_code(c.method) is None ==> entry_code_of(c) == gate_fallback(c),
        entry_code_of(c) matches Some(x) ==> !is_blank(x),
{
    match entry_code_of(c) {
        Some(x) => {
            match own_code(c.method) {
                Some(k) => crate::text::lemma_trim_shape(k),
                None => match c.building_access {
                    Some(b) => match b.gate_code {
                        Some(g) => crate::text::lemma_trim_shape(g),
                        None => {},
                    },
                    None => {},
                },
            }
        },
        None => {},
    }
}

} // verus!
