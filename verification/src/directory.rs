//! The zone directory: discovered speakers grouped by zone name.
//!
//! The directory is built once per command invocation from the devices the
//! caller discovered, keeps only music-capable speakers, and groups them by
//! zone name, preserving discovery order within a zone and ordering zones by
//! first appearance.

use vstd::prelude::*;
use crate::device::{DeviceInfo, DeviceView, is_speaker, spec_is_speaker};

verus! {

/// One zone: a name and the speakers that share it, in discovery order.
/// A zone with more than one member is a bonded or stereo-paired set.
pub struct ZoneEntry {
    pub name: String,
    pub members: Vec<DeviceInfo>,
}

/// The mathematical model of a [`ZoneEntry`].
#[verifier::ext_equal]
pub ghost struct ZoneEntryView {
    pub name: Seq<char>,
    pub members: Seq<DeviceView>,
}

impl View for ZoneEntry {
    type V = ZoneEntryView;

    open spec fn view(&self) -> ZoneEntryView {
        ZoneEntryView { name: self.name@, members: self.members.deep_view() }
    }
}

impl DeepView for ZoneEntry {
    type V = ZoneEntryView;

    open spec fn deep_view(&self) -> ZoneEntryView {
        self.view()
    }
}

/// The zone directory: zones keyed by name, built fresh on every invocation.
pub struct Directory {
    pub entries: Vec<ZoneEntry>,
}

impl View for Directory {
    type V = Seq<ZoneEntryView>;

    open spec fn view(&self) -> Seq<ZoneEntryView> {
        self.entries.deep_view()
    }
}

/// The speakers among `devs` that belong to zone `name`, in discovery order:
/// the subsequence of `devs` whose elements advertise the music service and
/// carry that zone name.
pub open spec fn zone_members(devs: Seq<DeviceView>, name: Seq<char>) -> Seq<DeviceView> {
    devs.filter(|d: DeviceView| spec_is_speaker(d) && d.zone_name == name)
}

/// The zone names of the speakers among `devs`, each name once, ordered by
/// its first appearance.
pub open spec fn zone_names(devs: Seq<DeviceView>) -> Seq<Seq<char>>
    decreases devs.len(),
{
    if devs.len() == 0 {
        Seq::empty()
    } else {
        let prefix = zone_names(devs.drop_last());
        let d = devs.last();
        if spec_is_speaker(d) && !prefix.contains(d.zone_name) {
            prefix.push(d.zone_name)
        } else {
            prefix
        }
    }
}

/// The names of a sequence of zone entries, in order.
pub open spec fn entry_names(entries: Seq<ZoneEntryView>) -> Seq<Seq<char>> {
    entries.map_values(|e: ZoneEntryView| e.name)
}

impl Directory {
    /// The zone names, in order.
    pub open spec fn names(self) -> Seq<Seq<char>> {
        entry_names(self@)
    }

    /// Whether a zone of that name is present.
    pub open spec fn contains_name(self, name: Seq<char>) -> bool {
        self.names().contains(name)
    }

    /// The index of the zone of that name (unique when the directory is
    /// well-formed).
    pub open spec fn index_of_name(self, name: Seq<char>) -> int {
        self.names().index_of(name)
    }

    /// The members of the zone of that name.
    pub open spec fn members_of(self, name: Seq<char>) -> Seq<DeviceView> {
        self@[self.index_of_name(name)].members
    }

    /// Well-formedness: zone names are unique, every zone is non-empty, and
    /// every member is a speaker carrying its zone's name.
    pub open spec fn wf(self) -> bool {
        &&& forall|i: int, j: int|
            0 <= i < j < self@.len() ==> #[trigger] self@[i].name != #[trigger] self@[j].name
        &&& forall|i: int| 0 <= i < self@.len() ==> #[trigger] self@[i].members.len() > 0
        &&& forall|i: int, k: int|
            0 <= i < self@.len() && 0 <= k < self@[i].members.len()
                ==> spec_is_speaker(#[trigger] self@[i].members[k])
                    && self@[i].members[k].zone_name == self@[i].name
    }

    /// Looks the zone of that name up; `Some` exactly when it is present.
    pub fn get_zone<'a>(&'a self, name: &String) -> (r: Option<&'a ZoneEntry>)
        requires
            self.wf(),
        ensures
            match r {
                Some(e) => self.contains_name(name@) && e@ == self@[self.index_of_name(name@)],
                None => !self.contains_name(name@),
            },
    {
        let n = self.entries.len();
        let mut i: usize = 0;
        while i < n
            invariant
                n == self@.len(),
                i <= n,
                self.wf(),
                forall|k: int| 0 <= k < i ==> #[trigger] self@[k].name != name@,
            decreases n - i,
        {
            if self.entries[i].name == *name {
                proof {
                    assert(self.names()[i as int] == name@);
                    assert(self.contains_name(name@));
                    let j = self.index_of_name(name@);
                    assert(self.names()[j] == name@);
                    assert(j == i as int);
                }
                return Some(&self.entries[i]);
            }
            i = i + 1;
        }
        proof {
            assert forall|k: int| 0 <= k < self.names().len()
                implies self.names()[k] != name@ by {
                assert(self@[k].name != name@);
            }
        }
        None
    }
}

/// The index of the entry with that name, if one is present.
fn find_zone_index(entries: &Vec<ZoneEntry>, name: &String) -> (r: Option<usize>)
    ensures
        match r {
            Some(j) => j < entries.deep_view().len() && entries.deep_view()[j as int].name == name@,
            None => forall|i: int|
                0 <= i < entries.deep_view().len()
                    ==> #[trigger] entries.deep_view()[i].name != name@,
        },
{
    let n = entries.len();
    let mut i: usize = 0;
    while i < n
        invariant
            n == entries.deep_view().len(),
            i <= n,
            forall|k: int| 0 <= k < i ==> #[trigger] entries.deep_view()[k].name != name@,
        decreases n - i,
    {
        if entries[i].name == *name {
            return Some(i);
        }
        i = i + 1;
    }
    None
}

/// Builds the zone directory from the discovered devices: keeps exactly the
/// music-capable speakers, groups them by zone name in discovery order, and
/// orders zones by first appearance.
pub fn build_directory(devices: &Vec<DeviceInfo>) -> (r: Directory)
    ensures
        r.wf(),
        r.names() == zone_names(devices.deep_view()),
        forall|i: int|
            0 <= i < r@.len()
                ==> #[trigger] r@[i].members == zone_members(devices.deep_view(), r@[i].name),
{
    let ghost dv: Seq<DeviceView> = devices.deep_view();
    let mut entries: Vec<ZoneEntry> = Vec::new();
    let mut idx: usize = 0;
    while idx < devices.len()
        invariant
            idx <= devices.len(),
            dv == devices.deep_view(),
            entry_names(entries.deep_view()) == zone_names(dv.take(idx as int)),
            forall|i: int, j: int|
                0 <= i < j < entries.deep_view().len()
                    ==> #[trigger] entries.deep_view()[i].name
                        != #[trigger] entries.deep_view()[j].name,
            forall|i: int|
                0 <= i < entries.deep_view().len()
                    ==> #[trigger] entries.deep_view()[i].members
                        == zone_members(dv.take(idx as int), entries.deep_view()[i].name),
        decreases devices.len() - idx,
    {
        let ghost p: Seq<DeviceView> = dv.take(idx as int);
        let ghost q: Seq<DeviceView> = dv.take(idx as int + 1);
        proof {
            assert(q.drop_last() =~= p);
            assert(q.last() == dv[idx as int]);
            assert(dv[idx as int] == devices[idx as int]@);
            lemma_zone_step(p, q);
        }
        let d = &devices[idx];
        if is_speaker(d) {
            match find_zone_index(&entries, &d.zone_name) {
                Some(j) => {
                    let ghost before = entries.deep_view();
                    entries[j].members.push(d.clone());
                    proof {
                        let after = entries.deep_view();
                        assert forall|i: int| 0 <= i < after.len()
                            implies #[trigger] after[i]
                                == (if i == j as int {
                                    ZoneEntryView {
                                        name: before[j as int].name,
                                        members: before[j as int].members.push(d@),
                                    }
                                } else {
                                    before[i]
                                }) by {
                            if i == j as int {
                                assert(after[i].members =~= before[i].members.push(d@));
                                assert(after[i] =~= ZoneEntryView {
                                    name: before[j as int].name,
                                    members: before[j as int].members.push(d@),
                                });
                            }
                        }
                        assert(entry_names(before)[j as int] == d@.zone_name);
                        assert(zone_names(p).contains(d@.zone_name));
                        assert(zone_names(q) =~= zone_names(p));
                        assert(entry_names(after) =~= entry_names(before));
                        assert forall|i: int| 0 <= i < after.len()
                            implies #[trigger] after[i].members
                                == zone_members(q, after[i].name) by {
                            if i == j as int {
                                assert(zone_members(q, before[i].name)
                                    =~= zone_members(p, before[i].name).push(d@));
                            } else {
                                assert(before[i].name != before[j as int].name);
                                assert(zone_members(q, before[i].name)
                                    =~= zone_members(p, before[i].name));
                            }
                        }
                    }
                }
                None => {
                    let mut members: Vec<DeviceInfo> = Vec::new();
                    members.push(d.clone());
                    let ghost before = entries.deep_view();
                    entries.push(ZoneEntry { name: d.zone_name.clone(), members });
                    proof {
                        let after = entries.deep_view();
                        let fresh = ZoneEntryView { name: d@.zone_name, members: seq![d@] };
                        assert(after[before.len() as int].members =~= seq![d@]);
                        assert(after[before.len() as int] =~= fresh);
                        assert(after =~= before.push(fresh));
                        assert(!entry_names(before).contains(d@.zone_name));
                        assert(entry_names(after)
                            =~= entry_names(before).push(d@.zone_name));
                        assert(zone_names(q) =~= zone_names(p).push(d@.zone_name));
                        assert forall|i: int| 0 <= i < after.len()
                            implies #[trigger] after[i].members
                                == zone_members(q, after[i].name) by {
                            if i < before.len() {
                                assert(before[i].name != d@.zone_name);
                                assert(zone_members(q, before[i].name)
                                    =~= zone_members(p, before[i].name));
                            } else {
                                assert(zone_members(p, d@.zone_name).len() == 0) by {
                                    lemma_absent_zone_empty(p, d@.zone_name);
                                }
                                assert(zone_members(q, d@.zone_name)
                                    =~= zone_members(p, d@.zone_name).push(d@));
                                assert(after[i].members =~= seq![d@]);
                                assert(zone_members(q, d@.zone_name) =~= seq![d@]);
                            }
                        }
                    }
                }
            }
        } else {
            proof {
                assert(zone_names(q) =~= zone_names(p));
                assert forall|i: int| 0 <= i < entries.deep_view().len()
                    implies #[trigger] entries.deep_view()[i].members
                        == zone_members(q, entries.deep_view()[i].name) by {
                    assert(zone_members(q, entries.deep_view()[i].name)
                        =~= zone_members(p, entries.deep_view()[i].name));
                }
            }
        }
        idx = idx + 1;
    }
    proof {
        assert(dv.take(devices.deep_view().len() as int) =~= dv);
        let names = entry_names(entries.deep_view());
        assert forall|i: int| 0 <= i < entries.deep_view().len()
            implies #[trigger] entries.deep_view()[i].members.len() > 0 by {
            assert(names[i] == entries.deep_view()[i].name);
            assert(zone_names(dv).contains(names[i]));
            lemma_named_zone_nonempty(dv, entries.deep_view()[i].name);
        }
        assert forall|i: int, k: int|
            0 <= i < entries.deep_view().len()
                && 0 <= k < entries.deep_view()[i].members.len()
            implies spec_is_speaker(#[trigger] entries.deep_view()[i].members[k])
                && entries.deep_view()[i].members[k].zone_name
                    == entries.deep_view()[i].name by {
            lemma_zone_member_props(dv, entries.deep_view()[i].name, k);
        }
    }
    Directory { entries }
}

/// Unfolds one grouping step: extending the scanned prefix by one device
/// extends each zone's member list, and the name list, as the device demands.
proof fn lemma_zone_step(p: Seq<DeviceView>, q: Seq<DeviceView>)
    requires
        q.len() == p.len() + 1,
        q.drop_last() == p,
    ensures
        forall|name: Seq<char>|
            #[trigger] zone_members(q, name) == (if spec_is_speaker(q.last())
                && q.last().zone_name == name {
                zone_members(p, name).push(q.last())
            } else {
                zone_members(p, name)
            }),
        zone_names(q) == (if spec_is_speaker(q.last())
            && !zone_names(p).contains(q.last().zone_name) {
            zone_names(p).push(q.last().zone_name)
        } else {
            zone_names(p)
        }),
{
    reveal(Seq::filter);
    assert forall|name: Seq<char>|
        #[trigger] zone_members(q, name) == (if spec_is_speaker(q.last())
            && q.last().zone_name == name {
            zone_members(p, name).push(q.last())
        } else {
            zone_members(p, name)
        }) by {
        assert(q.len() != 0);
    }
}

/// A zone name that never appears among the scanned speakers has no members.
proof fn lemma_absent_zone_empty(devs: Seq<DeviceView>, name: Seq<char>)
    requires
        !zone_names(devs).contains(name),
    ensures
        zone_members(devs, name).len() == 0,
    decreases devs.len(),
{
    reveal(Seq::filter);
    if devs.len() > 0 {
        assert(zone_names(devs.drop_last()).len() <= zone_names(devs).len());
        if zone_names(devs) == zone_names(devs.drop_last()).push(devs.last().zone_name) {
            assert(zone_names(devs)[zone_names(devs.drop_last()).len() as int]
                == devs.last().zone_name);
            assert(zone_names(devs).contains(devs.last().zone_name));
        }
        assert(!zone_names(devs.drop_last()).contains(name)) by {
            if zone_names(devs.drop_last()).contains(name) {
                let i = zone_names(devs.drop_last()).index_of(name);
                if zone_names(devs) != zone_names(devs.drop_last()) {
                    assert(zone_names(devs)[i] == name);
                }
                assert(zone_names(devs).contains(name));
            }
        }
        lemma_absent_zone_empty(devs.drop_last(), name);
    }
}

/// One line of the `list` output: a zone's name with its members' unique
/// identifiers and network addresses, in member order.
pub struct ZoneLine {
    pub name: String,
    pub uuids: Vec<String>,
    pub addresses: Vec<String>,
}

/// The mathematical model of a [`ZoneLine`].
#[verifier::ext_equal]
pub ghost struct ZoneLineView {
    pub name: Seq<char>,
    pub uuids: Seq<Seq<char>>,
    pub addresses: Seq<Seq<char>>,
}

impl View for ZoneLine {
    type V = ZoneLineView;

    open spec fn view(&self) -> ZoneLineView {
        ZoneLineView {
            name: self.name@,
            uuids: self.uuids.deep_view(),
            addresses: self.addresses.deep_view(),
        }
    }
}

impl DeepView for ZoneLine {
    type V = ZoneLineView;

    open spec fn deep_view(&self) -> ZoneLineView {
        self.view()
    }
}

/// The unique identifiers of a zone's members, in member order.
pub open spec fn member_uuids(members: Seq<DeviceView>) -> Seq<Seq<char>> {
    members.map_values(|d: DeviceView| d.uuid)
}

/// The network addresses of a zone's members, in member order.
pub open spec fn member_addresses(members: Seq<DeviceView>) -> Seq<Seq<char>> {
    members.map_values(|d: DeviceView| d.address)
}

/// Builds the `list` report: one line per zone, in directory order, each
/// carrying the zone's name and its members' identifiers and addresses. An
/// empty directory yields an empty report.
pub fn list_report(dir: &Directory) -> (r: Vec<ZoneLine>)
    ensures
        r.deep_view().len() == dir@.len(),
        forall|i: int|
            0 <= i < dir@.len() ==> {
                &&& (#[trigger] r.deep_view()[i]).name == dir@[i].name
                &&& r.deep_view()[i].uuids == member_uuids(dir@[i].members)
                &&& r.deep_view()[i].addresses == member_addresses(dir@[i].members)
            },
{
    let mut lines: Vec<ZoneLine> = Vec::new();
    let n = dir.entries.len();
    let mut i: usize = 0;
    while i < n
        invariant
            n == dir@.len(),
            i <= n,
            lines.deep_view().len() == i,
            forall|k: int|
                0 <= k < i ==> {
                    &&& (#[trigger] lines.deep_view()[k]).name == dir@[k].name
                    &&& lines.deep_view()[k].uuids == member_uuids(dir@[k].members)
                    &&& lines.deep_view()[k].addresses == member_addresses(dir@[k].members)
                },
        decreases n - i,
    {
        let entry = &dir.entries[i];
        let mut uuids: Vec<String> = Vec::new();
        let mut addresses: Vec<String> = Vec::new();
        let m = entry.members.len();
        let mut k: usize = 0;
        while k < m
            invariant
                m == entry@.members.len(),
                k <= m,
                uuids.deep_view().len() == k,
                addresses.deep_view().len() == k,
                forall|t: int|
                    0 <= t < k ==> #[trigger] uuids.deep_view()[t] == entry@.members[t].uuid,
                forall|t: int|
                    0 <= t < k ==> #[trigger] addresses.deep_view()[t]
                        == entry@.members[t].address,
            decreases m - k,
        {
            let ghost prev_u = uuids.deep_view();
            let ghost prev_a = addresses.deep_view();
            uuids.push(entry.members[k].uuid.clone());
            addresses.push(entry.members[k].address.clone());
            proof {
                assert(entry@.members[k as int] == entry.members[k as int]@);
                assert(uuids.deep_view() =~= prev_u.push(entry@.members[k as int].uuid));
                assert(addresses.deep_view() =~= prev_a.push(entry@.members[k as int].address));
            }
            k = k + 1;
        }
        let line = ZoneLine { name: entry.name.clone(), uuids, addresses };
        proof {
            assert(line@.uuids =~= member_uuids(entry@.members));
            assert(line@.addresses =~= member_addresses(entry@.members));
            assert(entry@ == dir@[i as int]);
        }
        let ghost prev = lines.deep_view();
        lines.push(line);
        proof {
            assert(lines.deep_view() =~= prev.push(line@));
        }
        i = i + 1;
    }
    lines
}

/// Every device listed under a zone name advertises the music service,
/// carries exactly that zone name, and was among the discovered devices:
/// devices lacking the music service never appear in a directory.
pub proof fn lemma_zone_member_props(devs: Seq<DeviceView>, name: Seq<char>, k: int)
    requires
        0 <= k < zone_members(devs, name).len(),
    ensures
        spec_is_speaker(zone_members(devs, name)[k]),
        zone_members(devs, name)[k].zone_name == name,
        devs.contains(zone_members(devs, name)[k]),
    decreases devs.len(),
{
    reveal(Seq::filter);
    if devs.len() > 0 {
        let sub = zone_members(devs.drop_last(), name);
        let d = devs.last();
        if spec_is_speaker(d) && d.zone_name == name && k == sub.len() {
            assert(devs.contains(d)) by {
                assert(devs[devs.len() - 1] == d);
            }
        } else {
            lemma_zone_member_props(devs.drop_last(), name, k);
            let e = zone_members(devs.drop_last(), name)[k];
            let i = choose|i: int| 0 <= i < devs.drop_last().len() && devs.drop_last()[i] == e;
            assert(devs[i] == e);
        }
    }
}

/// Every discovered speaker appears in its zone's member list, and its zone
/// name appears among the zone names.
pub proof fn lemma_speaker_listed(devs: Seq<DeviceView>, k: int)
    requires
        0 <= k < devs.len(),
        spec_is_speaker(devs[k]),
    ensures
        zone_members(devs, devs[k].zone_name).contains(devs[k]),
        zone_names(devs).contains(devs[k].zone_name),
    decreases devs.len(),
{
    reveal(Seq::filter);
    let name = devs[k].zone_name;
    let sub = zone_members(devs.drop_last(), name);
    let prefix = zone_names(devs.drop_last());
    if k == devs.len() - 1 {
        assert(zone_members(devs, name)[sub.len() as int] == devs[k]);
        if !prefix.contains(name) {
            assert(zone_names(devs)[prefix.len() as int] == name);
        } else {
            let i = prefix.index_of(name);
            assert(zone_names(devs)[i] == name);
        }
    } else {
        lemma_speaker_listed(devs.drop_last(), k);
        let i = choose|i: int|
            0 <= i < sub.len() && sub[i] == devs.drop_last()[k];
        assert(zone_members(devs, name)[i] == devs[k]);
        let j = prefix.index_of(name);
        assert(zone_names(devs)[j] == name);
    }
}

/// Law: discovery order is preserved. Scanning one more device leaves every
/// zone's member list unchanged, except that a speaker is appended at the
/// end of its own zone's list — so a zone discovered with N speakers lists
/// exactly those N, in discovery order.
pub proof fn lemma_zone_members_order(devs: Seq<DeviceView>, d: DeviceView, name: Seq<char>)
    ensures
        zone_members(devs.push(d), name) == (if spec_is_speaker(d) && d.zone_name == name {
            zone_members(devs, name).push(d)
        } else {
            zone_members(devs, name)
        }),
{
    reveal(Seq::filter);
    assert(devs.push(d).drop_last() =~= devs);
    assert(devs.push(d).last() == d);
    assert(devs.push(d).len() != 0);
}

/// A zone name listed among the zone names has at least one member.
pub proof fn lemma_named_zone_nonempty(devs: Seq<DeviceView>, name: Seq<char>)
    requires
        zone_names(devs).contains(name),
    ensures
        zone_members(devs, name).len() > 0,
    decreases devs.len(),
{
    reveal(Seq::filter);
    if devs.len() > 0 {
        let d = devs.last();
        let prefix = zone_names(devs.drop_last());
        if spec_is_speaker(d) && d.zone_name == name {
            assert(zone_members(devs, name).len()
                == zone_members(devs.drop_last(), name).len() + 1);
        } else {
            assert(prefix.contains(name)) by {
                let i = zone_names(devs).index_of(name);
                if spec_is_speaker(d) && !prefix.contains(d.zone_name) {
                    assert(zone_names(devs) == prefix.push(d.zone_name));
                    assert(i < prefix.len());
                    assert(prefix[i] == name);
                } else {
                    assert(zone_names(devs) == prefix);
                }
            }
            lemma_named_zone_nonempty(devs.drop_last(), name);
        }
    }
}

} // verus!
