//! The API scraper's decision logic: filter structured wealth records by a
//! threshold, resolve each citizenship to a region code, and group the
//! cleaned names by region. The caller fetches and decodes the records;
//! every rule about which records survive, and where they land, is
//! verified here.

use vstd::prelude::*;
use crate::regions::{get_iso_from_name, spec_iso_from_name};
use crate::text::{remove_all, spec_remove_all};

verus! {

/// One structured record from the wealth API, reduced to the fields the
/// scraper reads. The worth is in floor millions; a record whose worth
/// the API gave in no parseable form carries none, and is dropped as a
/// parse failure.
pub struct BillionaireRecord {
    pub final_worth: Option<u64>,
    pub citizenship: Option<String>,
    pub name: Option<String>,
}

/// A region of the output with the names grouped under it.
pub struct RegionGroup {
    pub region: String,
    pub names: Vec<String>,
}

/// The mathematical model of one output group.
#[verifier::ext_equal]
pub ghost struct GroupModel {
    pub region: Seq<char>,
    pub names: Seq<Seq<char>>,
}

impl View for RegionGroup {
    type V = GroupModel;

    open spec fn view(&self) -> GroupModel {
        GroupModel { region: self.region@, names: self.names@.map_values(|s: String| s@) }
    }
}

/// The suffix trimmed from family fortunes' names.
pub open spec fn family_marker() -> Seq<char> {
    " & family"@
}

/// A record passes the threshold when its worth is known and at least
/// `threshold`; a record without a parseable worth is a parse failure
/// and never passes.
pub open spec fn passes_threshold(r: BillionaireRecord, threshold: u64) -> bool {
    match r.final_worth {
        Some(w) => w >= threshold,
        None => false,
    }
}

/// What one record contributes: the region code its citizenship resolves
/// to and its cleaned name, or nothing when the record has no parseable
/// worth, is below the threshold, lacks a field, or names an unknown
/// country — such records are dropped and the run continues.
pub open spec fn spec_contribution(r: BillionaireRecord, threshold: u64) -> Option<
    (Seq<char>, Seq<char>),
> {
    if !passes_threshold(r, threshold) {
        None
    } else {
        match r.citizenship {
            None => None,
            Some(c) => match spec_iso_from_name(c@) {
                None => None,
                Some(iso) => match r.name {
                    None => None,
                    Some(n) => Some((iso, spec_remove_all(n@, family_marker()))),
                },
            },
        }
    }
}

/// `groups` with `name` appended to the group of `key`, scanning from
/// index `i`; a key not yet present gains a fresh group at the end.
pub open spec fn spec_add_from(
    groups: Seq<GroupModel>,
    key: Seq<char>,
    name: Seq<char>,
    i: int,
) -> Seq<GroupModel>
    recommends
        0 <= i <= groups.len(),
    decreases groups.len() - i when 0 <= i <= groups.len()
{
    if i >= groups.len() {
        groups.push(GroupModel { region: key, names: seq![name] })
    } else if groups[i].region == key {
        groups.update(
            i,
            GroupModel { region: groups[i].region, names: groups[i].names.push(name) },
        )
    } else {
        spec_add_from(groups, key, name, i + 1)
    }
}

/// `groups` with `name` filed under `key`.
pub open spec fn spec_add_to_group(groups: Seq<GroupModel>, key: Seq<char>, name: Seq<char>) -> Seq<
    GroupModel,
> {
    spec_add_from(groups, key, name, 0)
}

/// The groups built from `records[i..]` on top of `acc`: each record's
/// contribution, in record order, filed under its region.
pub open spec fn spec_group_from(
    records: Seq<BillionaireRecord>,
    threshold: u64,
    i: int,
    acc: Seq<GroupModel>,
) -> Seq<GroupModel>
    recommends
        0 <= i <= records.len(),
    decreases records.len() - i when 0 <= i <= records.len()
{
    if i >= records.len() {
        acc
    } else {
        let acc2 = match spec_contribution(records[i], threshold) {
            None => acc,
            Some(p) => spec_add_to_group(acc, p.0, p.1),
        };
        spec_group_from(records, threshold, i + 1, acc2)
    }
}

/// The groups built from all of `records`, regions in order of first
/// contribution.
pub open spec fn spec_groups(records: Seq<BillionaireRecord>, threshold: u64) -> Seq<GroupModel> {
    spec_group_from(records, threshold, 0, Seq::empty())
}

/// Files `name` under `key`: appends it to the group of `key`, or opens
/// a fresh group at the end when `key` has none yet.
fn add_to_group(groups: &mut Vec<RegionGroup>, key: String, name: String)
    ensures
        final(groups)@.map_values(|g: RegionGroup| g@) == spec_add_to_group(
            old(groups)@.map_values(|g: RegionGroup| g@),
            key@,
            name@,
        ),
{
    let ghost gv = groups@.map_values(|g: RegionGroup| g@);
    let mut i: usize = 0;
    while i < groups.len()
        invariant
            0 <= i <= groups@.len(),
            groups@ == old(groups)@,
            gv == groups@.map_values(|g: RegionGroup| g@),
            spec_add_from(gv, key@, name@, 0) == spec_add_from(gv, key@, name@, i as int),
        decreases groups@.len() - i,
    {
        if crate::text::str_eq(groups[i].region.as_str(), key.as_str()) {
            let g = groups.remove(i);
            let mut names = g.names;
            names.push(name);
            let region = g.region;
            groups.insert(i, RegionGroup { region, names });
            proof {
                assert(groups@.map_values(|g: RegionGroup| g@) =~~= gv.update(
                    i as int,
                    (GroupModel {
                        region: gv[i as int].region,
                        names: gv[i as int].names.push(name@),
                    }),
                ));
            }
            return ;
        }
        i = i + 1;
    }
    groups.push(RegionGroup { region: key, names: vec![name] });
    proof {
        assert(groups@.map_values(|g: RegionGroup| g@) =~~= gv.push(
            (GroupModel { region: key@, names: seq![name@] }),
        ));
    }
}

/// Builds the region-grouped map of qualifying names: drops records with
/// a missing worth or one below `threshold`, with a missing or
/// unresolvable citizenship, or with a missing name, trims the family
/// suffix from each kept name, and groups the names by region code in
/// order of first appearance.
pub fn get_largest_billionaires_map(records: &Vec<BillionaireRecord>, threshold: u64) -> (r: Vec<
    RegionGroup,
>)
    ensures
        r@.map_values(|g: RegionGroup| g@) == spec_groups(records@, threshold),
{
    let mut r: Vec<RegionGroup> = Vec::new();
    let mut i: usize = 0;
    proof {
        assert(r@.map_values(|g: RegionGroup| g@) =~= Seq::<GroupModel>::empty());
    }
    while i < records.len()
        invariant
            0 <= i <= records@.len(),
            spec_group_from(records@, threshold, i as int, r@.map_values(|g: RegionGroup| g@))
                == spec_groups(records@, threshold),
        decreases records@.len() - i,
    {
        let rec = &records[i];
        let keep = match rec.final_worth {
            Some(w) => w >= threshold,
            None => false,
        };
        if keep {
            match &rec.citizenship {
                None => {},
                Some(c) => {
                    match get_iso_from_name(c.as_str()) {
                        None => {},
                        Some(iso) => {
                            match &rec.name {
                                None => {},
                                Some(n) => {
                                    let cleaned = remove_all(n.as_str(), " & family");
                                    add_to_group(&mut r, iso, cleaned);
                                },
                            }
                        },
                    }
                },
            }
        }
        i = i + 1;
    }
    r
}


/// `name` stands in the group of `key`.
pub open spec fn group_has_name(groups: Seq<GroupModel>, key: Seq<char>, name: Seq<char>) -> bool {
    exists|g: int|
        0 <= g < groups.len() && groups[g].region == key && groups[g].names.contains(name)
}

proof fn lemma_add_files_name(groups: Seq<GroupModel>, key: Seq<char>, name: Seq<char>, i: int)
    requires
        0 <= i <= groups.len(),
    ensures
        group_has_name(spec_add_from(groups, key, name, i), key, name),
    decreases groups.len() - i,
{
    if i >= groups.len() {
        let res = groups.push(GroupModel { region: key, names: seq![name] });
        assert(res[groups.len() as int].region == key);
        assert(res[groups.len() as int].names[0] == name);
        assert(res[groups.len() as int].names.contains(name));
    } else if groups[i].region == key {
        let res = spec_add_from(groups, key, name, i);
        assert(res[i].names == groups[i].names.push(name));
        assert(res[i].names[groups[i].names.len() as int] == name);
        assert(res[i].names.contains(name));
    } else {
        lemma_add_files_name(groups, key, name, i + 1);
    }
}

proof fn lemma_add_preserves_names(
    groups: Seq<GroupModel>,
    key: Seq<char>,
    name: Seq<char>,
    i: int,
    k2: Seq<char>,
    n2: Seq<char>,
)
    requires
        0 <= i <= groups.len(),
        group_has_name(groups, k2, n2),
    ensures
        group_has_name(spec_add_from(groups, key, name, i), k2, n2),
    decreases groups.len() - i,
{
    let g = choose|g: int|
        0 <= g < groups.len() && groups[g].region == k2 && groups[g].names.contains(n2);
    if i >= groups.len() {
        let res = groups.push(GroupModel { region: key, names: seq![name] });
        assert(res[g] == groups[g]);
        assert(group_has_name(res, k2, n2));
    } else if groups[i].region == key {
        let res = spec_add_from(groups, key, name, i);
        if g == i {
            let idx = choose|idx: int|
                0 <= idx < groups[i].names.len() && groups[i].names[idx] == n2;
            assert(res[i].names[idx] == n2);
            assert(res[i].names.contains(n2));
        } else {
            assert(res[g] == groups[g]);
        }
        assert(group_has_name(res, k2, n2));
    } else {
        lemma_add_preserves_names(groups, key, name, i + 1, k2, n2);
    }
}

proof fn lemma_fold_preserves_names(
    records: Seq<BillionaireRecord>,
    threshold: u64,
    i: int,
    acc: Seq<GroupModel>,
    k2: Seq<char>,
    n2: Seq<char>,
)
    requires
        0 <= i <= records.len(),
        group_has_name(acc, k2, n2),
    ensures
        group_has_name(spec_group_from(records, threshold, i, acc), k2, n2),
    decreases records.len() - i,
{
    if i >= records.len() {
    } else {
        match spec_contribution(records[i], threshold) {
            None => {
                lemma_fold_preserves_names(records, threshold, i + 1, acc, k2, n2);
            },
            Some(p) => {
                lemma_add_preserves_names(acc, p.0, p.1, 0, k2, n2);
                lemma_fold_preserves_names(
                    records,
                    threshold,
                    i + 1,
                    spec_add_to_group(acc, p.0, p.1),
                    k2,
                    n2,
                );
            },
        }
    }
}

proof fn lemma_survive_from(
    records: Seq<BillionaireRecord>,
    threshold: u64,
    i: int,
    acc: Seq<GroupModel>,
    j: int,
)
    requires
        0 <= i <= j < records.len(),
        spec_contribution(records[j], threshold) is Some,
    ensures
        group_has_name(
            spec_group_from(records, threshold, i, acc),
            spec_contribution(records[j], threshold)->Some_0.0,
            spec_contribution(records[j], threshold)->Some_0.1,
        ),
    decreases records.len() - i,
{
    let c = spec_contribution(records[j], threshold)->Some_0;
    if i == j {
        lemma_add_files_name(acc, c.0, c.1, 0);
        lemma_fold_preserves_names(
            records,
            threshold,
            i + 1,
            spec_add_to_group(acc, c.0, c.1),
            c.0,
            c.1,
        );
    } else {
        match spec_contribution(records[i], threshold) {
            None => {
                lemma_survive_from(records, threshold, i + 1, acc, j);
            },
            Some(p) => {
                lemma_survive_from(records, threshold, i + 1, spec_add_to_group(acc, p.0, p.1), j);
            },
        }
    }
}

/// A dropped record never stops the run: every record whose worth,
/// citizenship and name all resolve has its cleaned name filed under its
/// region code in the final groups, whatever unresolvable or
/// below-threshold records stand before or after it.
pub proof fn lemma_contributions_survive(records: Seq<BillionaireRecord>, threshold: u64)
    ensures
        forall|j: int|
            0 <= j < records.len() && (#[trigger] spec_contribution(records[j], threshold))
                is Some ==> group_has_name(
                spec_groups(records, threshold),
                spec_contribution(records[j], threshold)->Some_0.0,
                spec_contribution(records[j], threshold)->Some_0.1,
            ),
{
    assert forall|j: int|
        0 <= j < records.len() && (#[trigger] spec_contribution(records[j], threshold))
            is Some implies group_has_name(
        spec_groups(records, threshold),
        spec_contribution(records[j], threshold)->Some_0.0,
        spec_contribution(records[j], threshold)->Some_0.1,
    ) by {
        lemma_survive_from(records, threshold, 0, Seq::empty(), j);
    }
}

} // verus!
