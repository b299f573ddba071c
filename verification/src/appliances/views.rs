//! What the appliances screens show, as plain values: the host editor's
//! device list and device form, the guest home card, the guest list and a
//! device's guest page. The shell turns these into widgets one for one.

use vstd::prelude::*;

use crate::appliances::codec::status_name;
use crate::appliances::commands::empty_doc_text;
use crate::appliances::content::{
    device_index, device_position, featured_order, guest_order, Appliance, ApplianceModel,
    ApplianceStatus, AppliancesPayload, MAX_APPLIANCES,
};
use crate::appliances::tiptap::{
    description_html, description_plain_text, description_steps, description_text,
    description_to_html, extract_howto_steps,
};
use crate::json::{get_of, get_str, str_of, JsonValue};
use crate::text::{blank, is_blank, str_eq, trim, trim_str};

verus! {

/// The editor selection that stands for a device not created yet.
pub open spec fn select_new() -> Seq<char> {
    "__new__"@
}

/// The trimmed `selectedId` string of the editor input, or the empty text.
pub open spec fn selected_of(input: JsonValue) -> Seq<char> {
    match str_of(get_of(input, "selectedId"@)) {
        Some(s) => trim(s),
        None => Seq::empty(),
    }
}

/// The device selected in the host editor (see [`selected_of`]).
pub fn selected_id_from_input(input: &JsonValue) -> (r: String)
    ensures
        r@ == selected_of(*input),
{
    match get_str(input, "selectedId") {
        Some(s) => trim_str(s).to_owned(),
        None => String::new(),
    }
}

/// A text for a rich-text editor: the empty document when blank, else the
/// trimmed text.
pub open spec fn editor_text(raw: Seq<char>) -> Seq<char> {
    if is_blank(raw) {
        empty_doc_text()
    } else {
        trim(raw)
    }
}

/// A text for a rich-text editor (see [`editor_text`]).
pub fn editor_value(raw: &str) -> (r: String)
    ensures
        r@ == editor_text(raw@),
{
    let t = trim_str(raw);
    if t.unicode_len() == 0 {
        "{\"type\":\"doc\",\"content\":[{\"type\":\"paragraph\"}]}".to_owned()
    } else {
        t.to_owned()
    }
}

/// One device in a list: its name, its emoji and location when given.
#[derive(Debug, Clone)]
pub struct DeviceRow {
    pub id: String,
    pub title: String,
    pub leading: Option<String>,
    pub subtitle: Option<String>,
    /// The row is the one selected in the host editor.
    pub selected: bool,
}

/// [`DeviceRow`] with texts as sequences.
pub struct DeviceRowModel {
    pub id: Seq<char>,
    pub title: Seq<char>,
    pub leading: Option<Seq<char>>,
    pub subtitle: Option<Seq<char>>,
    pub selected: bool,
}

impl DeepView for DeviceRow {
    type V = DeviceRowModel;

    open spec fn deep_view(&self) -> DeviceRowModel {
        DeviceRowModel {
            id: self.id@,
            title: self.title@,
            leading: self.leading.deep_view(),
            subtitle: self.subtitle.deep_view(),
            selected: self.selected,
        }
    }
}

/// A text when it is not blank (kept as it is).
pub open spec fn shown_if_set(s: Seq<char>) -> Option<Seq<char>> {
    if is_blank(s) {
        None
    } else {
        Some(s)
    }
}

fn shown_if_set_exec(s: &String) -> (r: Option<String>)
    ensures
        r.deep_view() == shown_if_set(s@),
{
    if blank(s.as_str()) {
        None
    } else {
        Some(s.clone())
    }
}

/// The list row of a device.
pub open spec fn row_of(a: ApplianceModel, selected: bool) -> DeviceRowModel {
    DeviceRowModel {
        id: a.id,
        title: a.name,
        leading: shown_if_set(a.emoji),
        subtitle: shown_if_set(a.location),
        selected: selected,
    }
}

fn device_row(device: &Appliance, selected: bool) -> (r: DeviceRow)
    ensures
        r.deep_view() == row_of(device.deep_view(), selected),
{
    DeviceRow {
        id: device.id.clone(),
        title: device.name.clone(),
        leading: shown_if_set_exec(&device.emoji),
        subtitle: shown_if_set_exec(&device.location),
        selected: selected,
    }
}

/// The guest list row of a device (it opens the device's page).
pub fn device_list_item(device: &Appliance) -> (r: DeviceRow)
    ensures
        r.deep_view() == row_of(device.deep_view(), false),
{
    device_row(device, false)
}

/// The host editor's device list: one row per device in stored order, and
/// the add button while there is room for another device.
#[derive(Debug)]
pub struct DeviceList {
    pub rows: Vec<DeviceRow>,
    pub can_add: bool,
    /// The add button is the current selection.
    pub add_selected: bool,
}

/// Rows of the host editor's list.
pub open spec fn host_rows(d: Seq<ApplianceModel>, selected: Seq<char>) -> Seq<DeviceRowModel> {
    Seq::new(d.len(), |i: int| row_of(d[i], d[i].id == selected))
}

/// The host editor's device list (see [`host_rows`]).
pub fn build_device_list(devices: &Vec<Appliance>, selected_id: &str) -> (r: DeviceList)
    ensures
        r.rows.deep_view() == host_rows(devices.deep_view(), selected_id@),
        r.can_add == (devices@.len() < MAX_APPLIANCES),
        r.add_selected == (selected_id@ == select_new()),
{
    let ghost d = devices.deep_view();
    let mut rows: Vec<DeviceRow> = Vec::new();
    let mut i: usize = 0;
    while i < devices.len()
        invariant
            i <= devices@.len(),
            d == devices.deep_view(),
            rows.deep_view() =~= host_rows(d, selected_id@).subrange(0, i as int),
        decreases devices.len() - i,
    {
        let sel = str_eq(selected_id, devices[i].id.as_str());
        let row = device_row(&devices[i], sel);
        let ghost before = rows.deep_view();
        rows.push(row);
        assert(rows.deep_view() =~= before.push(row.deep_view()));
        i = i + 1;
    }
    DeviceList {
        rows,
        can_add: devices.len() < MAX_APPLIANCES,
        add_selected: str_eq(selected_id, "__new__"),
    }
}

/// The host editor's form for one device (new or existing).
#[derive(Debug)]
pub struct DeviceForm {
    pub is_new: bool,
    pub id: String,
    pub name: String,
    pub emoji: String,
    pub location: String,
    pub manual_url: String,
    /// The description as the rich-text editor takes it.
    pub description: String,
    pub featured: bool,
    /// `active` or `hidden`.
    pub status: String,
    /// The id to delete, for an existing device.
    pub delete_id: Option<String>,
}

/// [`DeviceForm`] with texts as sequences.
pub struct DeviceFormModel {
    pub is_new: bool,
    pub id: Seq<char>,
    pub name: Seq<char>,
    pub emoji: Seq<char>,
    pub location: Seq<char>,
    pub manual_url: Seq<char>,
    pub description: Seq<char>,
    pub featured: bool,
    pub status: Seq<char>,
    pub delete_id: Option<Seq<char>>,
}

impl DeepView for DeviceForm {
    type V = DeviceFormModel;

    open spec fn deep_view(&self) -> DeviceFormModel {
        DeviceFormModel {
            is_new: self.is_new,
            id: self.id@,
            name: self.name@,
            emoji: self.emoji@,
            location: self.location@,
            manual_url: self.manual_url@,
            description: self.description@,
            featured: self.featured,
            status: self.status@,
            delete_id: self.delete_id.deep_view(),
        }
    }
}

/// The host editor's detail panel.
#[derive(Debug)]
pub enum DetailPanel {
    /// Nothing is selected yet.
    NothingSelected,
    /// The selected device no longer exists.
    Missing,
    /// The form of the selected or new device.
    Editor(DeviceForm),
}

/// [`DetailPanel`] with texts as sequences.
pub enum DetailPanelModel {
    NothingSelected,
    Missing,
    Editor(DeviceFormModel),
}

impl DeepView for DetailPanel {
    type V = DetailPanelModel;

    open spec fn deep_view(&self) -> DetailPanelModel {
        match self {
            DetailPanel::NothingSelected => DetailPanelModel::NothingSelected,
            DetailPanel::Missing => DetailPanelModel::Missing,
            DetailPanel::Editor(f) => DetailPanelModel::Editor(f.deep_view()),
        }
    }
}

/// The empty form of a new device.
pub open spec fn new_form() -> DeviceFormModel {
    DeviceFormModel {
        is_new: true,
        id: Seq::empty(),
        name: Seq::empty(),
        emoji: Seq::empty(),
        location: Seq::empty(),
        manual_url: Seq::empty(),
        description: empty_doc_text(),
        featured: false,
        status: "active"@,
        delete_id: None,
    }
}

/// The form of an existing device.
pub open spec fn form_of(a: ApplianceModel) -> DeviceFormModel {
    DeviceFormModel {
        is_new: false,
        id: a.id,
        name: a.name,
        emoji: a.emoji,
        location: a.location,
        manual_url: a.manual_url,
        description: editor_text(a.description),
        featured: a.featured,
        status: status_name(a.status),
        delete_id: Some(a.id),
    }
}

/// The detail panel for a selection: nothing selected, the new-device form,
/// the first device with the selected id, or the missing notice.
pub open spec fn detail_of(d: Seq<ApplianceModel>, selected: Seq<char>) -> DetailPanelModel {
    if selected.len() == 0 {
        DetailPanelModel::NothingSelected
    } else if selected == select_new() {
        DetailPanelModel::Editor(new_form())
    } else {
        match device_index(d, selected) {
            Some(i) => DetailPanelModel::Editor(form_of(d[i])),
            None => DetailPanelModel::Missing,
        }
    }
}

fn status_text(s: ApplianceStatus) -> (r: String)
    ensures
        r@ == status_name(s),
{
    match s {
        ApplianceStatus::Active => "active".to_owned(),
        ApplianceStatus::Hidden => "hidden".to_owned(),
    }
}

/// The host editor's detail panel (see [`detail_of`]).
pub fn build_detail_panel(devices: &Vec<Appliance>, selected_id: &str) -> (r: DetailPanel)
    ensures
        r.deep_view() == detail_of(devices.deep_view(), selected_id@),
{
    if selected_id.unicode_len() == 0 {
        return DetailPanel::NothingSelected;
    }
    if str_eq(selected_id, "__new__") {
        return DetailPanel::Editor(DeviceForm {
            is_new: true,
            id: String::new(),
            name: String::new(),
            emoji: String::new(),
            location: String::new(),
            manual_url: String::new(),
            description: "{\"type\":\"doc\",\"content\":[{\"type\":\"paragraph\"}]}".to_owned(),
            featured: false,
            status: "active".to_owned(),
            delete_id: None,
        });
    }
    match device_position(devices, selected_id) {
        Some(i) => {
            let a = &devices[i];
            DetailPanel::Editor(DeviceForm {
                is_new: false,
                id: a.id.clone(),
                name: a.name.clone(),
                emoji: a.emoji.clone(),
                location: a.location.clone(),
                manual_url: a.manual_url.clone(),
                description: editor_value(a.description.as_str()),
                featured: a.featured,
                status: status_text(a.status),
                delete_id: Some(a.id.clone()),
            })
        },
        None => DetailPanel::Missing,
    }
}

/// Rows of a list of devices.
pub open spec fn rows_of(s: Seq<ApplianceModel>) -> Seq<DeviceRowModel> {
    Seq::new(s.len(), |i: int| row_of(s[i], false))
}

/// Devices at the given positions.
pub open spec fn picked(v: Seq<Appliance>, p: Seq<usize>) -> Seq<ApplianceModel> {
    Seq::new(p.len(), |j: int| v[p[j] as int].deep_view())
}

fn rows_of_refs(devices: &Vec<&Appliance>, Ghost(expected): Ghost<Seq<ApplianceModel>>) -> (r: Vec<DeviceRow>)
    requires
        devices@.len() == expected.len(),
        forall|j: int| 0 <= j < devices@.len() ==> (*devices@[j]).deep_view() == expected[j],
    ensures
        r.deep_view() == rows_of(expected),
{
    let mut rows: Vec<DeviceRow> = Vec::new();
    let mut j: usize = 0;
    while j < devices.len()
        invariant
            j <= devices@.len(),
            devices@.len() == expected.len(),
            forall|k: int| 0 <= k < devices@.len() ==> (*devices@[k]).deep_view() == expected[k],
            rows.deep_view() =~= rows_of(expected).subrange(0, j as int),
        decreases devices.len() - j,
    {
        let row = device_list_item(devices[j]);
        let ghost before = rows.deep_view();
        rows.push(row);
        assert(rows.deep_view() =~= before.push(row.deep_view()));
        j = j + 1;
    }
    rows
}

/// The guest list: rows of the guest-visible devices in guest order (an
/// empty list is shown as the empty notice).
pub fn devices_list(payload: &AppliancesPayload) -> (r: Vec<DeviceRow>)
    ensures
        r.deep_view() == rows_of(picked(payload.devices@, guest_order(payload.devices.deep_view()))),
{
    let ghost d = payload.devices.deep_view();
    let devs = payload.guest_devices();
    rows_of_refs(&devs, Ghost(picked(payload.devices@, guest_order(d))))
}

/// The guest home card: rows of the featured guest devices (an empty card
/// is shown as the empty notice).
pub fn build_home_card(payload: &AppliancesPayload) -> (r: Vec<DeviceRow>)
    ensures
        r.deep_view() == rows_of(picked(payload.devices@, featured_order(payload.devices.deep_view()))),
{
    let ghost d = payload.devices.deep_view();
    let devs = payload.featured_guest_devices();
    rows_of_refs(&devs, Ghost(picked(payload.devices@, featured_order(d))))
}

/// How a device's guest page explains its use.
#[derive(Debug)]
pub enum HowTo {
    /// The steps of the description's lists.
    Steps(Vec<String>),
    /// The description as HTML, when it has no list.
    Html(String),
    Nothing,
}

/// [`HowTo`] with texts as sequences.
pub enum HowToModel {
    Steps(Seq<Seq<char>>),
    Html(Seq<char>),
    Nothing,
}

impl DeepView for HowTo {
    type V = HowToModel;

    open spec fn deep_view(&self) -> HowToModel {
        match self {
            HowTo::Steps(s) => HowToModel::Steps(s.deep_view()),
            HowTo::Html(h) => HowToModel::Html(h@),
            HowTo::Nothing => HowToModel::Nothing,
        }
    }
}

/// A device's guest page: header, how-to, safety note, manual link and the
/// context handed to the host chat.
#[derive(Debug)]
pub struct DeviceDetail {
    pub id: String,
    pub name: String,
    pub emoji: Option<String>,
    pub location: Option<String>,
    pub howto: HowTo,
    pub safety_note: Option<String>,
    /// The trimmed manual link.
    pub manual_url: Option<String>,
    /// Plain text of the description.
    pub contact_context: String,
}

/// [`DeviceDetail`] with texts as sequences.
pub struct DeviceDetailModel {
    pub id: Seq<char>,
    pub name: Seq<char>,
    pub emoji: Option<Seq<char>>,
    pub location: Option<Seq<char>>,
    pub howto: HowToModel,
    pub safety_note: Option<Seq<char>>,
    pub manual_url: Option<Seq<char>>,
    pub contact_context: Seq<char>,
}

impl DeepView for DeviceDetail {
    type V = DeviceDetailModel;

    open spec fn deep_view(&self) -> DeviceDetailModel {
        DeviceDetailModel {
            id: self.id@,
            name: self.name@,
            emoji: self.emoji.deep_view(),
            location: self.location.deep_view(),
            howto: self.howto.deep_view(),
            safety_note: self.safety_note.deep_view(),
            manual_url: self.manual_url.deep_view(),
            contact_context: self.contact_context@,
        }
    }
}

/// The how-to of a description: its list steps, else its HTML when not
/// blank, else nothing.
pub open spec fn howto_of(description: Seq<char>) -> HowToModel {
    if description_steps(description).len() > 0 {
        HowToModel::Steps(description_steps(description))
    } else if !is_blank(description_html(description)) {
        HowToModel::Html(description_html(description))
    } else {
        HowToModel::Nothing
    }
}

/// The guest page of a device.
pub open spec fn detail_model(a: ApplianceModel) -> DeviceDetailModel {
    DeviceDetailModel {
        id: a.id,
        name: a.name,
        emoji: shown_if_set(a.emoji),
        location: shown_if_set(a.location),
        howto: howto_of(a.description),
        safety_note: shown_if_set(a.safety_note),
        manual_url: if is_blank(a.manual_url) {
            None
        } else {
            Some(trim(a.manual_url))
        },
        contact_context: description_text(a.description),
    }
}

/// The guest page of a device (see [`detail_model`]).
pub fn device_detail_children(device: &Appliance) -> (r: DeviceDetail)
    ensures
        r.deep_view() == detail_model(device.deep_view()),
{
    let steps = extract_howto_steps(device.description.as_str());
    let howto = if steps.len() > 0 {
        HowTo::Steps(steps)
    } else {
        let html = description_to_html(device.description.as_str());
        if blank(html.as_str()) {
            HowTo::Nothing
        } else {
            HowTo::Html(html)
        }
    };
    let manual = trim_str(device.manual_url.as_str());
    DeviceDetail {
        id: device.id.clone(),
        name: device.name.clone(),
        emoji: shown_if_set_exec(&device.emoji),
        location: shown_if_set_exec(&device.location),
        howto,
        safety_note: shown_if_set_exec(&device.safety_note),
        manual_url: if manual.unicode_len() == 0 {
            None
        } else {
            Some(manual.to_owned())
        },
        contact_context: description_plain_text(device.description.as_str()),
    }
}

/// The device a guest page shows for an id: the first guest-visible device
/// with that id, else the first device with that id when it is active.
pub open spec fn item_of(v: Seq<Appliance>, d: Seq<ApplianceModel>, id: Seq<char>) -> Option<ApplianceModel> {
    let g = picked(v, guest_order(d));
    match device_index(g, id) {
        Some(k) => Some(g[k]),
        None => match device_index(d, id) {
            Some(i) => if d[i].status == ApplianceStatus::Active {
                Some(d[i])
            } else {
                None
            },
            None => None,
        },
    }
}

/// A device's guest page for a requested id; `None` gives the not-found
/// notice.
pub fn build_item_detail(payload: &AppliancesPayload, device_id: Option<&str>) -> (r: Option<DeviceDetail>)
    ensures
        match device_id {
            None => r is None,
            Some(id) => match item_of(payload.devices@, payload.devices.deep_view(), id@) {
                Some(a) => r matches Some(x) && x.deep_view() == detail_model(a),
                None => r is None,
            },
        },
{
    let id = match device_id {
        Some(id) => id,
        None => return None,
    };
    let ghost d = payload.devices.deep_view();
    let ghost g = picked(payload.devices@, guest_order(d));
    let devs = payload.guest_devices();
    let mut k: usize = 0;
    assert(g.subrange(0, g.len() as int) =~= g);
    while k < devs.len()
        invariant
            k <= devs@.len(),
            device_id == Some(id),
            d == payload.devices.deep_view(),
            g == picked(payload.devices@, guest_order(d)),
            devs@.len() == g.len(),
            forall|j: int| 0 <= j < devs@.len() ==> (*devs@[j]).deep_view() == g[j],
            device_index(g, id@) == match device_index(g.subrange(k as int, g.len() as int), id@) {
                Some(x) => Some(x + k),
                None => None,
            },
        decreases devs.len() - k,
    {
        let ghost rest = g.subrange(k as int, g.len() as int);
        assert(rest.drop_first() =~= g.subrange(k + 1, g.len() as int));
        if str_eq(devs[k].id.as_str(), id) {
            assert(rest[0] == g[k as int]);
            assert(device_index(rest, id@) == Some(0int));
            assert(device_index(g, id@) == Some(k as int));
            return Some(device_detail_children(devs[k]));
        }
        k = k + 1;
    }
    match payload.find_device(id) {
        Some(a) => match a.status {
            ApplianceStatus::Active => Some(device_detail_children(a)),
            ApplianceStatus::Hidden => None,
        },
        None => None,
    }
}

} // verus!
