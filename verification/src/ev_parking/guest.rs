//! What the guest sees of the EV parking configuration, row by row: secrets
//! are masked until the reveal instant.

use vstd::prelude::*;

use crate::ev_parking::config::{opt_text, ConfigModel, ModuleConfig};
use crate::text::{blank, is_blank, trim, trim_str};
use crate::timed_reveal::{available_from_text, format_available_from, RevealDecision};

verus! {

/// Shown in place of a secret that is not revealed yet.
pub open spec fn secret_mask() -> Seq<char> {
    "••••••"@
}

/// One row of the guest card, top to bottom.
#[derive(Debug)]
pub enum GuestRow {
    /// The "available later" banner with its message.
    RevealBanner { message: String },
    /// A labelled value (`mono` for codes).
    KeyValue { key: String, value: String, mono: bool },
    /// A link that opens the map.
    MapLink { url: String },
    /// A button that copies a revealed secret.
    CopyButton { label: String, toast: String, value: String },
    /// The host's instructions.
    Instructions { text: String },
}

/// [`GuestRow`] with texts as sequences.
pub enum RowModel {
    RevealBanner { message: Seq<char> },
    KeyValue { key: Seq<char>, value: Seq<char>, mono: bool },
    MapLink { url: Seq<char> },
    CopyButton { label: Seq<char>, toast: Seq<char>, value: Seq<char> },
    Instructions { text: Seq<char> },
}

impl DeepView for GuestRow {
    type V = RowModel;

    open spec fn deep_view(&self) -> RowModel {
        match self {
            GuestRow::RevealBanner { message } => RowModel::RevealBanner { message: message@ },
            GuestRow::KeyValue { key, value, mono } => RowModel::KeyValue {
                key: key@,
                value: value@,
                mono: *mono,
            },
            GuestRow::MapLink { url } => RowModel::MapLink { url: url@ },
            GuestRow::CopyButton { label, toast, value } => RowModel::CopyButton {
                label: label@,
                toast: toast@,
                value: value@,
            },
            GuestRow::Instructions { text } => RowModel::Instructions { text: text@ },
        }
    }
}

/// A secret as shown: the trimmed secret once revealed, the mask before.
pub open spec fn secret_shown(revealed: bool, code: Seq<char>) -> Seq<char> {
    if revealed {
        trim(code)
    } else {
        secret_mask()
    }
}

/// The configuration holds a PIN or a parking code.
pub open spec fn has_secret(c: ConfigModel) -> bool {
    !is_blank(c.parking_code) || !is_blank(c.charger_pin)
}

/// Rows of one secret: its value, and a copy button once revealed.
pub open spec fn secret_rows(
    revealed: bool,
    key: Seq<char>,
    copy_label: Seq<char>,
    toast: Seq<char>,
    code: Seq<char>,
) -> Seq<RowModel> {
    if is_blank(code) {
        Seq::empty()
    } else if revealed {
        seq![
            RowModel::KeyValue { key: key, value: trim(code), mono: true },
            RowModel::CopyButton { label: copy_label, toast: toast, value: trim(code) },
        ]
    } else {
        seq![RowModel::KeyValue { key: key, value: secret_mask(), mono: true }]
    }
}

/// The guest card: the locked banner (secrets hidden, a secret set, a
/// message given), the spot, the map link, the parking code, the charger
/// PIN, the instructions.
pub open spec fn body_rows(c: ConfigModel, revealed: bool, locked_message: Option<Seq<char>>) -> Seq<RowModel> {
    let banner: Seq<RowModel> = if !revealed && has_secret(c) && locked_message is Some {
        seq![RowModel::RevealBanner { message: locked_message->0 }]
    } else {
        Seq::empty()
    };
    let spot: Seq<RowModel> = if is_blank(c.spot_label) {
        Seq::empty()
    } else {
        seq![RowModel::KeyValue { key: "i18n:guest.spot"@, value: trim(c.spot_label), mono: false }]
    };
    let map: Seq<RowModel> = match opt_text(c.map_url) {
        Some(u) => seq![RowModel::MapLink { url: u }],
        None => Seq::empty(),
    };
    let instructions: Seq<RowModel> = match opt_text(c.instructions) {
        Some(t) => seq![RowModel::Instructions { text: t }],
        None => Seq::empty(),
    };
    banner + spot + map + secret_rows(
        revealed,
        "i18n:guest.parkingCode"@,
        "i18n:guest.copyParkingCode"@,
        "i18n:guest.copy.parkingCode.toast"@,
        c.parking_code,
    ) + secret_rows(
        revealed,
        "i18n:guest.chargerPin"@,
        "i18n:guest.copyChargerPin"@,
        "i18n:guest.copy.chargerPin.toast"@,
        c.charger_pin,
    ) + instructions
}

/// A secret as shown (see [`secret_shown`]).
pub fn secret_display(revealed: bool, code: &str) -> (r: String)
    ensures
        r@ == secret_shown(revealed, code@),
{
    if revealed {
        trim_str(code).to_owned()
    } else {
        "••••••".to_owned()
    }
}

/// The configuration holds a PIN or a parking code.
pub fn has_any_secret(config: &ModuleConfig) -> (r: bool)
    ensures
        r == has_secret(config.deep_view()),
{
    !blank(config.parking_code.as_str()) || !blank(config.charger_pin.as_str())
}

fn push_row(rows: &mut Vec<GuestRow>, row: GuestRow)
    ensures
        final(rows).deep_view() == old(rows).deep_view().push(row.deep_view()),
{
    let ghost before = rows.deep_view();
    rows.push(row);
    assert(rows.deep_view() =~= before.push(row.deep_view()));
}

fn push_secret_rows(rows: &mut Vec<GuestRow>, revealed: bool, key: &str, copy_label: &str, toast: &str, code: &str)
    ensures
        final(rows).deep_view() == old(rows).deep_view() + secret_rows(revealed, key@, copy_label@, toast@, code@),
{
    let t = trim_str(code);
    if t.unicode_len() == 0 {
        assert(old(rows).deep_view() + Seq::<RowModel>::empty() =~= old(rows).deep_view());
        return;
    }
    push_row(rows, GuestRow::KeyValue { key: key.to_owned(), value: secret_display(revealed, code), mono: true });
    if revealed {
        push_row(rows, GuestRow::CopyButton { label: copy_label.to_owned(), toast: toast.to_owned(), value: t.to_owned() });
    }
    assert(rows.deep_view() =~= old(rows).deep_view() + secret_rows(revealed, key@, copy_label@, toast@, code@));
}

/// The rows of the guest card (see [`body_rows`]).
pub fn build_ev_parking_body(config: &ModuleConfig, revealed: bool, locked_message: Option<String>) -> (r: Vec<GuestRow>)
    ensures
        r.deep_view() == body_rows(config.deep_view(), revealed, locked_message.deep_view()),
{
    let ghost c = config.deep_view();
    let mut rows: Vec<GuestRow> = Vec::new();
    if !revealed && has_any_secret(config) {
        match locked_message {
            Some(m) => push_row(&mut rows, GuestRow::RevealBanner { message: m }),
            None => {},
        }
    }
    let ghost after_banner = rows.deep_view();
    let spot = trim_str(config.spot_label.as_str());
    if spot.unicode_len() > 0 {
        push_row(&mut rows, GuestRow::KeyValue { key: "i18n:guest.spot".to_owned(), value: spot.to_owned(), mono: false });
    }
    match config.map_url_text() {
        Some(u) => push_row(&mut rows, GuestRow::MapLink { url: u.to_owned() }),
        None => {},
    }
    push_secret_rows(
        &mut rows,
        revealed,
        "i18n:guest.parkingCode",
        "i18n:guest.copyParkingCode",
        "i18n:guest.copy.parkingCode.toast",
        config.parking_code.as_str(),
    );
    push_secret_rows(
        &mut rows,
        revealed,
        "i18n:guest.chargerPin",
        "i18n:guest.copyChargerPin",
        "i18n:guest.copy.chargerPin.toast",
        config.charger_pin.as_str(),
    );
    match config.instructions_text() {
        Some(t) => push_row(&mut rows, GuestRow::Instructions { text: t.to_owned() }),
        None => {},
    }
    assert(rows.deep_view() =~= body_rows(c, revealed, locked_message.deep_view()));
    rows
}

/// While secrets are hidden, the card never shows one: no copy button, and
/// every code row shows the mask.
pub proof fn lemma_hidden_secrets_masked(c: ConfigModel, locked_message: Option<Seq<char>>)
    ensures
        forall|i: int|
            0 <= i < body_rows(c, false, locked_message).len() ==> match #[trigger] body_rows(c, false, locked_message)[i] {
                RowModel::CopyButton { .. } => false,
                RowModel::KeyValue { value, mono, .. } => mono ==> value == secret_mask(),
                _ => true,
            },
{
}

/// The locked-secrets sentence, with the local reveal date and time when
/// known.
pub open spec fn locked_text(when: Option<Seq<char>>) -> Seq<char> {
    match when {
        Some(w) => "Available from "@ + w,
        None => "Secrets will be available closer to check-in."@,
    }
}

/// The locked-secrets sentence (see [`locked_text`]).
pub fn locked_message(available_from_label: Option<&str>) -> (r: String)
    ensures
        r@ == locked_text(
            match available_from_label {
                Some(w) => Some(w@),
                None => None,
            },
        ),
{
    match available_from_label {
        Some(w) => {
            let mut s = "Available from ".to_owned();
            s.append(w);
            s
        },
        None => "Secrets will be available closer to check-in.".to_owned(),
    }
}

/// The guest's locked message: none once revealed, else the sentence with
/// the reveal instant in the property's time zone when there is one.
pub open spec fn banner_text(d: RevealDecision, tz: Seq<char>) -> Option<Seq<char>> {
    if d.revealed {
        None
    } else {
        Some(
            locked_text(
                match d.available_from {
                    Some(a) => available_from_text(a, tz),
                    None => None,
                },
            ),
        )
    }
}

/// The guest's locked message (see [`banner_text`]).
pub fn locked_banner(decision: &RevealDecision, property_timezone: &str) -> (r: Option<String>)
    ensures
        r.deep_view() == banner_text(*decision, property_timezone@),
{
    if decision.revealed {
        return None;
    }
    let when = match decision.available_from {
        Some(a) => format_available_from(a, property_timezone),
        None => None,
    };
    match &when {
        Some(w) => Some(locked_message(Some(w.as_str()))),
        None => Some(locked_message(None)),
    }
}

} // verus!
