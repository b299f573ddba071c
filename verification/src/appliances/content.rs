//! Appliances payload: the device list of one language, its guest-facing
//! selections and orderings.

use vstd::prelude::*;

use crate::order::{
    is_stable_selection, lemma_stable_selection_exists, lemma_stable_selection_unique, stable_selection,
};
use crate::text::{blank, is_blank, str_eq};

verus! {

/// Upper bound on devices per payload.
pub const MAX_APPLIANCES: usize = 10;

/// Upper bound on devices on the home card.
pub const MAX_FEATURED: usize = 5;

/// Guest-visible vs host-only hidden.
#[derive(Debug, Clone, Copy, PartialEq, Eq, Structural)]
pub enum ApplianceStatus {
    Active,
    Hidden,
}

impl Default for ApplianceStatus {
    fn default() -> (r: Self)
        ensures
            r == ApplianceStatus::Active,
    {
        ApplianceStatus::Active
    }
}

/// One appliance guide entry.
#[derive(Debug, Clone, PartialEq, Eq)]
pub struct Appliance {
    pub id: String,
    pub name: String,
    pub emoji: String,
    /// TipTap JSON document text.
    pub description: String,
    pub featured: bool,
    pub order: i32,
    pub location: String,
    pub manual_url: String,
    pub safety_note: String,
    pub status: ApplianceStatus,
}

#[verifier::ext_equal]
pub struct ApplianceModel {
    pub id: Seq<char>,
    pub name: Seq<char>,
    pub emoji: Seq<char>,
    pub description: Seq<char>,
    pub featured: bool,
    pub order: i32,
    pub location: Seq<char>,
    pub manual_url: Seq<char>,
    pub safety_note: Seq<char>,
    pub status: ApplianceStatus,
}

impl DeepView for Appliance {
    type V = ApplianceModel;

    open spec fn deep_view(&self) -> ApplianceModel {
        ApplianceModel {
            id: self.id@,
            name: self.name@,
            emoji: self.emoji@,
            description: self.description@,
            featured: self.featured,
            order: self.order,
            location: self.location@,
            manual_url: self.manual_url@,
            safety_note: self.safety_note@,
            status: self.status,
        }
    }
}

impl Default for Appliance {
    fn default() -> (r: Self)
        ensures
            r.deep_view() == (ApplianceModel {
                id: Seq::empty(),
                name: Seq::empty(),
                emoji: Seq::empty(),
                description: Seq::empty(),
                featured: false,
                order: 0,
                location: Seq::empty(),
                manual_url: Seq::empty(),
                safety_note: Seq::empty(),
                status: ApplianceStatus::Active,
            }),
    {
        Appliance {
            id: String::new(),
            name: String::new(),
            emoji: String::new(),
            description: String::new(),
            featured: false,
            order: 0,
            location: String::new(),
            manual_url: String::new(),
            safety_note: String::new(),
            status: ApplianceStatus::Active,
        }
    }
}

impl Appliance {
    /// Copy of this entry.
    pub fn duplicate(&self) -> (r: Appliance)
        ensures
            r.deep_view() == self.deep_view(),
    {
        Appliance {
            id: self.id.clone(),
            name: self.name.clone(),
            emoji: self.emoji.clone(),
            description: self.description.clone(),
            featured: self.featured,
            order: self.order,
            location: self.location.clone(),
            manual_url: self.manual_url.clone(),
            safety_note: self.safety_note.clone(),
            status: self.status,
        }
    }
}

/// Device list of one language and the global safety notice (TipTap text).
#[derive(Debug, Clone, PartialEq, Eq)]
pub struct AppliancesPayload {
    pub devices: Vec<Appliance>,
    pub safety_notice: String,
}

#[verifier::ext_equal]
pub struct PayloadModel {
    pub devices: Seq<ApplianceModel>,
    pub safety_notice: Seq<char>,
}

impl DeepView for AppliancesPayload {
    type V = PayloadModel;

    open spec fn deep_view(&self) -> PayloadModel {
        PayloadModel { devices: self.devices.deep_view(), safety_notice: self.safety_notice@ }
    }
}

/// The empty payload.
pub open spec fn empty_payload() -> PayloadModel {
    PayloadModel { devices: Seq::empty(), safety_notice: Seq::empty() }
}

impl Default for AppliancesPayload {
    fn default() -> (r: Self)
        ensures
            r.deep_view() == empty_payload(),
    {
        AppliancesPayload { devices: Vec::new(), safety_notice: String::new() }
    }
}

/// No device has a name.
pub open spec fn payload_is_empty(p: PayloadModel) -> bool {
    forall|i: int| 0 <= i < p.devices.len() ==> #[trigger] is_blank(p.devices[i].name)
}

/// A payload worth showing: a named device or a safety notice.
pub open spec fn has_content(p: PayloadModel) -> bool {
    !payload_is_empty(p) || !is_blank(p.safety_notice)
}

/// Shown to guests: active and named.
pub open spec fn guest_visible(a: ApplianceModel) -> bool {
    a.status == ApplianceStatus::Active && !is_blank(a.name)
}

/// Sort keys of the devices.
pub open spec fn orders_of(d: Seq<ApplianceModel>) -> Seq<i128> {
    d.map_values(|a: ApplianceModel| a.order as i128)
}

/// Which devices guests see.
pub open spec fn guest_marks(d: Seq<ApplianceModel>) -> Seq<bool> {
    d.map_values(|a: ApplianceModel| guest_visible(a))
}

/// Every device.
pub open spec fn all_marks(d: Seq<ApplianceModel>) -> Seq<bool> {
    d.map_values(|a: ApplianceModel| true)
}

/// Positions of the guest-visible devices, ordered by `order`, ties in list
/// order (the unique stable selection).
pub open spec fn guest_order(d: Seq<ApplianceModel>) -> Seq<usize> {
    choose|p: Seq<usize>| is_stable_selection(orders_of(d), guest_marks(d), p)
}

/// Positions of all devices, ordered by `order`, ties in list order.
pub open spec fn full_order(d: Seq<ApplianceModel>) -> Seq<usize> {
    choose|p: Seq<usize>| is_stable_selection(orders_of(d), all_marks(d), p)
}

/// The devices reordered by `order`, ties in list order.
pub open spec fn sorted_by_order(d: Seq<ApplianceModel>) -> Seq<ApplianceModel> {
    full_order(d).map_values(|i: usize| d[i as int])
}

/// Featured guest devices, in guest order, at most [`MAX_FEATURED`].
pub open spec fn featured_order(d: Seq<ApplianceModel>) -> Seq<usize> {
    let f = guest_order(d).filter(featured_at(d));
    if f.len() <= 5 {
        f
    } else {
        f.take(5)
    }
}

/// Whether the device at a position is featured.
pub open spec fn featured_at(d: Seq<ApplianceModel>) -> spec_fn(usize) -> bool {
    |i: usize| d[i as int].featured
}

/// First device with the given id.
pub open spec fn device_index(d: Seq<ApplianceModel>, id: Seq<char>) -> Option<int>
    decreases d.len(),
{
    if d.len() == 0 {
        None
    } else if d[0].id == id {
        Some(0)
    } else {
        match device_index(d.drop_first(), id) {
            Some(i) => Some(i + 1),
            None => None,
        }
    }
}

/// Devices that are featured and not hidden.
pub open spec fn featured_count_of(d: Seq<ApplianceModel>) -> nat {
    d.filter(|a: ApplianceModel| a.featured && a.status != ApplianceStatus::Hidden).len()
}

fn keys_and_marks(devices: &Vec<Appliance>, guest_only: bool) -> (r: (Vec<i128>, Vec<bool>))
    ensures
        r.0@ == orders_of(devices.deep_view()),
        r.1@ == (if guest_only {
            guest_marks(devices.deep_view())
        } else {
            all_marks(devices.deep_view())
        }),
{
    let mut keys: Vec<i128> = Vec::new();
    let mut marks: Vec<bool> = Vec::new();
    let mut i: usize = 0;
    while i < devices.len()
        invariant
            i <= devices@.len(),
            keys@ == orders_of(devices.deep_view()).subrange(0, i as int),
            marks@ == (if guest_only {
                guest_marks(devices.deep_view())
            } else {
                all_marks(devices.deep_view())
            }).subrange(0, i as int),
        decreases devices.len() - i,
    {
        keys.push(devices[i].order as i128);
        let m = if guest_only {
            devices[i].status == ApplianceStatus::Active && !blank(devices[i].name.as_str())
        } else {
            true
        };
        marks.push(m);
        i = i + 1;
        assert(keys@ =~= orders_of(devices.deep_view()).subrange(0, i as int));
        assert(marks@ =~= (if guest_only {
            guest_marks(devices.deep_view())
        } else {
            all_marks(devices.deep_view())
        }).subrange(0, i as int));
    }
    assert(keys@ =~= orders_of(devices.deep_view()));
    assert(marks@ =~= (if guest_only {
        guest_marks(devices.deep_view())
    } else {
        all_marks(devices.deep_view())
    }));
    (keys, marks)
}

/// Position of the first device with the given id.
pub fn device_position(devices: &Vec<Appliance>, device_id: &str) -> (r: Option<usize>)
    ensures
        match r {
            Some(i) => i < devices@.len() && device_index(devices.deep_view(), device_id@) == Some(i as int),
            None => device_index(devices.deep_view(), device_id@) is None,
        },
{
    let ghost d = devices.deep_view();
    let mut i: usize = 0;
    assert(d.subrange(0, d.len() as int) =~= d);
    while i < devices.len()
        invariant
            i <= devices@.len(),
            d == devices.deep_view(),
            device_index(d, device_id@) == match device_index(d.subrange(i as int, d.len() as int), device_id@) {
                Some(k) => Some(k + i),
                None => None,
            },
        decreases devices.len() - i,
    {
        let ghost rest = d.subrange(i as int, d.len() as int);
        assert(rest.drop_first() =~= d.subrange(i + 1, d.len() as int));
        if str_eq(devices[i].id.as_str(), device_id) {
            return Some(i);
        }
        i = i + 1;
    }
    None
}

/// Positions of the guest-visible devices in guest order.
pub fn guest_positions(devices: &Vec<Appliance>) -> (p: Vec<usize>)
    ensures
        p@ == guest_order(devices.deep_view()),
        is_stable_selection(orders_of(devices.deep_view()), guest_marks(devices.deep_view()), p@),
{
    let (keys, marks) = keys_and_marks(devices, true);
    let p = stable_selection(&keys, &marks);
    proof {
        let d = devices.deep_view();
        let q = guest_order(d);
        assert(is_stable_selection(orders_of(d), guest_marks(d), q));
        lemma_stable_selection_unique(orders_of(d), guest_marks(d), p@, q);
    }
    p
}

/// Positions of all devices in `order` order.
pub fn all_positions(devices: &Vec<Appliance>) -> (p: Vec<usize>)
    ensures
        p@ == full_order(devices.deep_view()),
        is_stable_selection(orders_of(devices.deep_view()), all_marks(devices.deep_view()), p@),
{
    let (keys, marks) = keys_and_marks(devices, false);
    let p = stable_selection(&keys, &marks);
    proof {
        let d = devices.deep_view();
        let q = full_order(d);
        assert(is_stable_selection(orders_of(d), all_marks(d), q));
        lemma_stable_selection_unique(orders_of(d), all_marks(d), p@, q);
    }
    p
}

impl AppliancesPayload {
    /// Copy of this payload.
    pub fn duplicate(&self) -> (r: AppliancesPayload)
        ensures
            r.deep_view() == self.deep_view(),
    {
        let mut devices: Vec<Appliance> = Vec::new();
        let mut i: usize = 0;
        while i < self.devices.len()
            invariant
                i <= self.devices@.len(),
                devices.deep_view() == self.devices.deep_view().subrange(0, i as int),
            decreases self.devices.len() - i,
        {
            let ghost before = devices.deep_view();
            devices.push(self.devices[i].duplicate());
            assert(devices.deep_view() =~= before.push(self.devices.deep_view()[i as int]));
            i = i + 1;
            assert(devices.deep_view() =~= self.devices.deep_view().subrange(0, i as int));
        }
        assert(self.devices.deep_view().subrange(0, i as int) =~= self.devices.deep_view());
        AppliancesPayload { devices, safety_notice: self.safety_notice.clone() }
    }

    /// True when no device has a name.
    pub fn is_empty(&self) -> (r: bool)
        ensures
            r == payload_is_empty(self.deep_view()),
    {
        let ghost d = self.devices.deep_view();
        assert forall|i: int| 0 <= i < d.len() implies #[trigger] d[i].name == self.devices@[i].name@ by {}
        let mut i: usize = 0;
        while i < self.devices.len()
            invariant
                i <= self.devices@.len(),
                forall|k: int| 0 <= k < i ==> #[trigger] is_blank(self.devices@[k].name@),
            decreases self.devices.len() - i,
        {
            if !blank(self.devices[i].name.as_str()) {
                assert(!is_blank(self.deep_view().devices[i as int].name));
                return false;
            }
            i = i + 1;
        }
        assert forall|k: int| 0 <= k < self.deep_view().devices.len() implies #[trigger] is_blank(
            self.deep_view().devices[k].name,
        ) by {
            assert(is_blank(self.devices@[k].name@));
        }
        true
    }

    /// True when guests see no device.
    pub fn is_empty_for_guest(&self) -> (r: bool)
        ensures
            r == (guest_order(self.devices.deep_view()).len() == 0),
    {
        guest_positions(&self.devices).len() == 0
    }

    /// First device with the given id.
    pub fn find_device(&self, device_id: &str) -> (r: Option<&Appliance>)
        ensures
            match r {
                Some(a) => device_index(self.devices.deep_view(), device_id@) matches Some(i) && 0
                    <= i < self.devices@.len() && self.devices@[i] == *a,
                None => device_index(self.devices.deep_view(), device_id@) is None,
            },
    {
        match device_position(&self.devices, device_id) {
            Some(i) => Some(&self.devices[i]),
            None => None,
        }
    }

    /// Active, named devices for guests, ordered by `order` (ties in list order).
    pub fn guest_devices(&self) -> (r: Vec<&Appliance>)
        ensures
            r@.len() == guest_order(self.devices.deep_view()).len(),
            forall|j: int| 0 <= j < r@.len() ==> *r@[j] == self.devices@[guest_order(self.devices.deep_view())[j] as int],
    {
        let p = guest_positions(&self.devices);
        let mut out: Vec<&Appliance> = Vec::new();
        let mut j: usize = 0;
        while j < p.len()
            invariant
                j <= p@.len(),
                p@ == guest_order(self.devices.deep_view()),
                is_stable_selection(orders_of(self.devices.deep_view()), guest_marks(self.devices.deep_view()), p@),
                out@.len() == j,
                forall|k: int| 0 <= k < j ==> *out@[k] == self.devices@[p@[k] as int],
            decreases p.len() - j,
        {
            assert((p@[j as int] as int) < self.devices@.len());
            out.push(&self.devices[p[j]]);
            j = j + 1;
        }
        out
    }

    /// Featured guest devices for the home card, at most [`MAX_FEATURED`].
    pub fn featured_guest_devices(&self) -> (r: Vec<&Appliance>)
        ensures
            r@.len() == featured_order(self.devices.deep_view()).len(),
            forall|j: int| 0 <= j < r@.len() ==> *r@[j] == self.devices@[featured_order(self.devices.deep_view())[j] as int],
    {
        let p = guest_positions(&self.devices);
        let ghost d = self.devices.deep_view();
        let ghost pred = featured_at(d);
        let mut out: Vec<&Appliance> = Vec::new();
        let mut picked: Vec<usize> = Vec::new();
        let mut j: usize = 0;
        while j < p.len() && out.len() < MAX_FEATURED
            invariant
                j <= p@.len(),
                d == self.devices.deep_view(),
                pred == featured_at(d),
                p@ == guest_order(d),
                is_stable_selection(orders_of(d), guest_marks(d), p@),
                picked@ == p@.subrange(0, j as int).filter(pred),
                out@.len() == picked@.len(),
                out@.len() <= 5,
                forall|k: int| 0 <= k < out@.len() ==> *out@[k] == self.devices@[picked@[k] as int],
            decreases p.len() - j,
        {
            proof {
                reveal(Seq::filter);
                assert(p@.subrange(0, j + 1).drop_last() =~= p@.subrange(0, j as int));
            }
            let idx = p[j];
            assert((idx as int) < self.devices@.len());
            if self.devices[idx].featured {
                out.push(&self.devices[idx]);
                picked.push(idx);
            }
            j = j + 1;
        }
        proof {
            let f = p@.filter(pred);
            if out@.len() < 5 {
                assert(p@.subrange(0, j as int) =~= p@);
                assert(picked@ == f);
            } else {
                lemma_filter_prefix(p@, pred, j as int);
                assert(picked@ == f.take(5));
                if f.len() == 5 {
                    assert(f.take(5) =~= f);
                }
            }
        }
        out
    }

    /// Devices that are featured and not hidden.
    pub fn featured_count(&self) -> (r: usize)
        ensures
            r == featured_count_of(self.devices.deep_view()),
    {
        let ghost d = self.devices.deep_view();
        let mut n: usize = 0;
        let mut i: usize = 0;
        while i < self.devices.len()
            invariant
                i <= self.devices@.len(),
                d == self.devices.deep_view(),
                n == d.subrange(0, i as int).filter(
                    |a: ApplianceModel| a.featured && a.status != ApplianceStatus::Hidden,
                ).len(),
                n <= i,
            decreases self.devices.len() - i,
        {
            proof {
                reveal(Seq::filter);
                assert(d.subrange(0, i + 1).drop_last() =~= d.subrange(0, i as int));
            }
            if self.devices[i].featured && self.devices[i].status != ApplianceStatus::Hidden {
                n = n + 1;
            }
            i = i + 1;
        }
        assert(d.subrange(0, i as int) =~= d);
        n
    }

    /// Reorder the devices by `order`, keeping ties in list order.
    pub fn sort_by_order(&mut self)
        ensures
            final(self).safety_notice == old(self).safety_notice,
            final(self).devices@.len() == old(self).devices@.len(),
            final(self).devices.deep_view() == sorted_by_order(old(self).devices.deep_view()),
    {
        let p = all_positions(&self.devices);
        let ghost d = self.devices.deep_view();
        let mut sorted: Vec<Appliance> = Vec::new();
        let mut j: usize = 0;
        proof {
            assert forall|i: int| 0 <= i < d.len() implies #[trigger] covers(p@, i) by {
                assert(all_marks(d)[i]);
            }
            assert forall|a: int, b: int| 0 <= a < b < p@.len() implies p@[a] != p@[b] by {
                assert(crate::order::lex_before(orders_of(d), p@[a] as int, p@[b] as int));
            }
            lemma_selection_len(d.len() as int, p@);
        }
        while j < p.len()
            invariant
                j <= p@.len(),
                d == self.devices.deep_view(),
                p@ == full_order(d),
                is_stable_selection(orders_of(d), all_marks(d), p@),
                sorted@.len() == j,
                forall|k: int| 0 <= k < j ==> #[trigger] sorted.deep_view()[k] == d[p@[k] as int],
            decreases p.len() - j,
        {
            assert((p@[j as int] as int) < d.len());
            let ghost before = sorted.deep_view();
            sorted.push(self.devices[p[j]].duplicate());
            assert(sorted.deep_view() =~= before.push(d[p@[j as int] as int]));
            j = j + 1;
        }
        assert(sorted.deep_view() =~= sorted_by_order(d));
        self.devices = sorted;
    }
}

/// Position `i` occurs in `p`.
pub open spec fn covers(p: Seq<usize>, i: int) -> bool {
    exists|k: int| 0 <= k < p.len() && p[k] == i
}

/// A selection that covers every position of `0..n` has length `n`.
proof fn lemma_selection_len(n: int, p: Seq<usize>)
    requires
        0 <= n,
        forall|j: int| #![trigger p[j]] 0 <= j < p.len() ==> (p[j] as int) < n,
        forall|i: int| 0 <= i < n ==> #[trigger] covers(p, i),
        forall|a: int, b: int| 0 <= a < b < p.len() ==> p[a] != p[b],
    ensures
        p.len() == n,
{
    let q = p.map_values(|x: usize| x as int);
    assert(q.no_duplicates()) by {
        assert forall|a: int, b: int| 0 <= a < q.len() && 0 <= b < q.len() && a != b implies q[a]
            != q[b] by {
            if a < b {
                assert(p[a] != p[b]);
            } else {
                assert(p[b] != p[a]);
            }
        }
    }
    assert(q.to_set() =~= vstd::set_lib::set_int_range(0, n)) by {
        assert forall|i: int| q.to_set().contains(i) implies 0 <= i < n by {
            let k = choose|k: int| 0 <= k < q.len() && q[k] == i;
            assert(p[k] as int == i);
        }
        assert forall|i: int| 0 <= i < n implies q.to_set().contains(i) by {
            assert(covers(p, i));
            let k = choose|k: int| 0 <= k < p.len() && p[k] == i;
            assert(q[k] == i);
        }
    }
    q.unique_seq_to_set();
    vstd::set_lib::lemma_int_range(0, n);
}

/// A filter stopped after `k` kept elements is the first `k` of the full filter.
proof fn lemma_filter_prefix(s: Seq<usize>, pred: spec_fn(usize) -> bool, j: int)
    requires
        0 <= j <= s.len(),
        s.subrange(0, j).filter(pred).len() == 5,
    ensures
        s.subrange(0, j).filter(pred) == s.filter(pred).take(5),
        s.filter(pred).len() >= 5,
{
    let a = s.subrange(0, j);
    let b = s.subrange(j, s.len() as int);
    assert(s =~= a + b);
    Seq::filter_distributes_over_add(a, b, pred);
    assert((a.filter(pred) + b.filter(pred)).take(5) =~= a.filter(pred));
}

/// The positions ordering the devices by `order` form a stable ordering of
/// all of them.
pub proof fn lemma_full_order(x: Seq<ApplianceModel>)
    requires
        x.len() <= usize::MAX,
    ensures
        orders_of(x).len() == x.len(),
        all_marks(x).len() == x.len(),
        is_stable_selection(orders_of(x), all_marks(x), full_order(x)),
        sorted_by_order(x).len() == full_order(x).len(),
{
    lemma_stable_selection_exists(orders_of(x), all_marks(x));
}

/// Ordering the devices by `order` keeps each of them.
pub proof fn lemma_sorted_contains(x: Seq<ApplianceModel>, m: int)
    requires
        x.len() <= usize::MAX,
        0 <= m < x.len(),
    ensures
        sorted_by_order(x).contains(x[m]),
{
    lemma_full_order(x);
    let ord = full_order(x);
    assert(all_marks(x)[m]);
    let j = choose|j: int| 0 <= j < ord.len() && ord[j] == m;
    assert(sorted_by_order(x)[j] == x[m]);
}

/// The first device of an id has the id, and no earlier device has it;
/// without one, no device has the id.
pub proof fn lemma_device_index(d: Seq<ApplianceModel>, id: Seq<char>)
    ensures
        device_index(d, id) matches Some(i) ==> 0 <= i < d.len() && d[i].id == id && forall|j: int|
            0 <= j < i ==> d[j].id != id,
        device_index(d, id) is None ==> forall|j: int| 0 <= j < d.len() ==> d[j].id != id,
    decreases d.len(),
{
    if d.len() > 0 {
        lemma_device_index(d.drop_first(), id);
        if d[0].id != id {
            assert forall|j: int| 0 < j < d.len() implies d[j].id == d.drop_first()[j - 1].id by {}
        }
    }
}

} // verus!
