//! Candidate items, finished media records, the dedup check and the
//! orchestrator's assembly stage: normalize, tag and gather exactly the
//! items whose URL has not been ingested before.

use vstd::prelude::*;
use crate::markup::{no_tag, spec_strip, strip_markup};
use crate::regions::{spec_tag, KeyphraseIndex, RegionEntry};
use crate::text::{spec_truncate, str_eq, truncate};

verus! {

/// The fixed upper bound on a record's body length, in characters.
pub const MAX_BODY_LEN: usize = 400;

/// An item discovered from a source before normalization: the absolute URL
/// that identifies it, and its raw title and body text.
pub struct CandidateItem {
    pub url: String,
    pub title: String,
    pub body: String,
}

/// The final unit of work: a normalized, region-tagged record.
pub struct MediaRecord {
    pub url: String,
    pub title: String,
    pub body: String,
    pub regions: Vec<String>,
}

/// The mathematical model of a media record.
pub ghost struct RecordModel {
    pub url: Seq<char>,
    pub title: Seq<char>,
    pub body: Seq<char>,
    pub regions: Seq<Seq<char>>,
}

impl View for MediaRecord {
    type V = RecordModel;

    open spec fn view(&self) -> RecordModel {
        RecordModel {
            url: self.url@,
            title: self.title@,
            body: self.body@,
            regions: self.regions@.map_values(|s: String| s@),
        }
    }
}

/// A finished record carries no residual markup and a bounded body.
pub open spec fn record_wf(r: RecordModel) -> bool {
    &&& no_tag(r.title)
    &&& no_tag(r.body)
    &&& r.body.len() <= MAX_BODY_LEN
}

/// True when some URL of `seen` equals `url`.
pub open spec fn seen_contains(seen: Seq<String>, url: Seq<char>) -> bool {
    exists|i: int| 0 <= i < seen.len() && seen[i]@ == url
}

/// The record that a candidate item normalizes and tags to: markup is
/// stripped from title and body, the body is truncated to `max`
/// characters, and the regions are those the stripped title and body
/// match in the index.
pub open spec fn spec_normalize(it: CandidateItem, entries: Seq<RegionEntry>, max: nat) -> RecordModel {
    let t = spec_strip(it.title@);
    let b = spec_truncate(spec_strip(it.body@), max);
    RecordModel { url: it.url@, title: t, body: b, regions: spec_tag(entries, seq![t, b]) }
}

/// The records assembled from `items[i..]`: one for each item whose URL is
/// not in `seen`, in item order.
pub open spec fn spec_build_from(
    items: Seq<CandidateItem>,
    seen: Seq<String>,
    entries: Seq<RegionEntry>,
    max: nat,
    i: int,
) -> Seq<RecordModel>
    recommends
        0 <= i <= items.len(),
    decreases items.len() - i when 0 <= i <= items.len()
{
    if i >= items.len() {
        Seq::empty()
    } else if seen_contains(seen, items[i].url@) {
        spec_build_from(items, seen, entries, max, i + 1)
    } else {
        seq![spec_normalize(items[i], entries, max)] + spec_build_from(items, seen, entries, max, i + 1)
    }
}

/// The records assembled from all of `items`.
pub open spec fn spec_build(
    items: Seq<CandidateItem>,
    seen: Seq<String>,
    entries: Seq<RegionEntry>,
    max: nat,
) -> Seq<RecordModel> {
    spec_build_from(items, seen, entries, max, 0)
}

/// The pure core of the dedup gate: whether `url` is among the URLs
/// already ingested. Identity is by exact string; variants of a seen URL
/// are not recognized.
pub fn url_seen(seen: &Vec<String>, url: &str) -> (r: bool)
    ensures
        r == seen_contains(seen@, url@),
{
    let mut i: usize = 0;
    while i < seen.len()
        invariant
            0 <= i <= seen@.len(),
            forall|j: int| 0 <= j < i ==> seen@[j]@ != url@,
        decreases seen@.len() - i,
    {
        if str_eq(seen[i].as_str(), url) {
            proof {
                assert(seen_contains(seen@, url@));
            }
            return true;
        }
        i = i + 1;
    }
    proof {
        if seen_contains(seen@, url@) {
            let j = choose|j: int| 0 <= j < seen@.len() && seen@[j]@ == url@;
            assert(seen@[j]@ != url@);
        }
    }
    false
}

/// Normalizes one candidate item into a record: strips markup from the
/// title and body, truncates the body, and tags the stripped title and
/// body with regions. On a well-formed index the record's region list
/// holds no duplicate identifier.
pub fn normalize_item(it: &CandidateItem, index: &KeyphraseIndex) -> (r: MediaRecord)
    ensures
        r@ == spec_normalize(*it, index.entries@, MAX_BODY_LEN as nat),
        record_wf(r@),
        index.wf() ==> forall|a: int, b: int|
            0 <= a < b < r@.regions.len() ==> r@.regions[a] != r@.regions[b],
{
    let title = strip_markup(it.title.as_str());
    let stripped_body = strip_markup(it.body.as_str());
    let body = truncate(stripped_body.as_str(), MAX_BODY_LEN);
    let mut frags: Vec<String> = Vec::new();
    frags.push(title.clone());
    frags.push(body.clone());
    let regions = index.tag(&frags);
    proof {
        assert(crate::regions::frag_views(frags@) =~= seq![title@, body@]);
        assert(no_tag(body@)) by {
            let sb = spec_strip(it.body@);
            if body@.len() < sb.len() {
                assert forall|a: int, b: int|
                    0 <= a < b < body@.len() && body@[a] == '<' implies body@[b] != '>' by {
                    assert(sb[a] == body@[a]);
                    assert(sb[b] == body@[b]);
                }
            }
        }
    }
    let r = MediaRecord { url: it.url.clone(), title, body, regions };
    r
}

/// Assembles the batch that the orchestrator hands to the persistence
/// boundary: for each candidate item, in order, whose URL the dedup store
/// has not seen, the normalized and tagged record. Items already seen are
/// never re-emitted, every emitted record is well formed, and on a
/// well-formed index no record's region list holds a duplicate.
pub fn build_records(items: &Vec<CandidateItem>, seen: &Vec<String>, index: &KeyphraseIndex) -> (r:
    Vec<MediaRecord>)
    ensures
        r@.map_values(|m: MediaRecord| m@) == spec_build(
            items@,
            seen@,
            index.entries@,
            MAX_BODY_LEN as nat,
        ),
        forall|k: int| 0 <= k < r@.len() ==> !seen_contains(seen@, #[trigger] r@[k]@.url),
        forall|k: int| 0 <= k < r@.len() ==> record_wf(#[trigger] r@[k]@),
        index.wf() ==> forall|k: int, a: int, b: int|
            #![trigger r@[k]@.regions[a], r@[k]@.regions[b]]
            0 <= k < r@.len() && 0 <= a < b < r@[k]@.regions.len() ==> r@[k]@.regions[a]
                != r@[k]@.regions[b],
{
    let mut r: Vec<MediaRecord> = Vec::new();
    let mut i: usize = 0;
    proof {
        assert(r@.map_values(|m: MediaRecord| m@) =~= Seq::<RecordModel>::empty());
    }
    while i < items.len()
        invariant
            0 <= i <= items@.len(),
            r@.map_values(|m: MediaRecord| m@) + spec_build_from(
                items@,
                seen@,
                index.entries@,
                MAX_BODY_LEN as nat,
                i as int,
            ) == spec_build(items@, seen@, index.entries@, MAX_BODY_LEN as nat),
            forall|k: int| 0 <= k < r@.len() ==> !seen_contains(seen@, #[trigger] r@[k]@.url),
            forall|k: int| 0 <= k < r@.len() ==> record_wf(#[trigger] r@[k]@),
            index.wf() ==> forall|k: int, a: int, b: int|
                #![trigger r@[k]@.regions[a], r@[k]@.regions[b]]
                0 <= k < r@.len() && 0 <= a < b < r@[k]@.regions.len() ==> r@[k]@.regions[a]
                    != r@[k]@.regions[b],
        decreases items@.len() - i,
    {
        let ghost r0 = r@;
        let it = &items[i];
        if !url_seen(seen, it.url.as_str()) {
            let rec = normalize_item(it, index);
            r.push(rec);
            proof {
                assert(r@.map_values(|m: MediaRecord| m@) =~= r0.map_values(
                    |m: MediaRecord| m@,
                ).push(spec_normalize(items@[i as int], index.entries@, MAX_BODY_LEN as nat)));
                assert(r@.map_values(|m: MediaRecord| m@) + spec_build_from(
                    items@,
                    seen@,
                    index.entries@,
                    MAX_BODY_LEN as nat,
                    i as int + 1,
                ) =~= r0.map_values(|m: MediaRecord| m@) + spec_build_from(
                    items@,
                    seen@,
                    index.entries@,
                    MAX_BODY_LEN as nat,
                    i as int,
                ));
            }
        }
        i = i + 1;
    }
    r
}

/// One source's enablement flag.
pub struct SourceFlag {
    pub name: String,
    pub enabled: bool,
}

/// Whether the first flag named `name` enables its source; a source with
/// no flag is disabled.
pub open spec fn spec_enabled(flags: Seq<SourceFlag>, name: Seq<char>, i: int) -> bool
    recommends
        0 <= i <= flags.len(),
    decreases flags.len() - i when 0 <= i <= flags.len()
{
    if i >= flags.len() {
        false
    } else if flags[i].name@ == name {
        flags[i].enabled
    } else {
        spec_enabled(flags, name, i + 1)
    }
}

/// The per-source enablement configuration, constructed once at startup
/// and passed explicitly into the orchestrator: a disabled or unlisted
/// source is skipped entirely, with no fetch issued.
pub struct SourceConfig {
    pub flags: Vec<SourceFlag>,
}

impl SourceConfig {
    /// Creates a configuration with every source disabled.
    pub fn new() -> (r: Self)
        ensures
            r.flags@.len() == 0,
    {
        SourceConfig { flags: Vec::new() }
    }

    /// Records an enablement flag for `name`. An earlier flag for the
    /// same source keeps precedence.
    pub fn add_source(&mut self, name: String, enabled: bool)
        ensures
            final(self).flags@ == old(self).flags@.push((SourceFlag { name, enabled })),
    {
        self.flags.push(SourceFlag { name, enabled });
    }

    /// Reports whether the source named `name` is enabled.
    pub fn is_enabled(&self, name: &str) -> (r: bool)
        ensures
            r == spec_enabled(self.flags@, name@, 0),
    {
        let mut i: usize = 0;
        while i < self.flags.len()
            invariant
                0 <= i <= self.flags@.len(),
                spec_enabled(self.flags@, name@, 0) == spec_enabled(self.flags@, name@, i as int),
            decreases self.flags@.len() - i,
        {
            if str_eq(self.flags[i].name.as_str(), name) {
                return self.flags[i].enabled;
            }
            i = i + 1;
        }
        false
    }
}

/// The idempotent re-run law: whatever the items, no record assembled by
/// the orchestrator carries a URL already present in the dedup store.
pub proof fn lemma_no_reemission(
    items: Seq<CandidateItem>,
    seen: Seq<String>,
    entries: Seq<RegionEntry>,
    max: nat,
)
    ensures
        forall|k: int|
            0 <= k < spec_build(items, seen, entries, max).len() ==> !seen_contains(
                seen,
                #[trigger] spec_build(items, seen, entries, max)[k].url,
            ),
{
    lemma_no_reemission_from(items, seen, entries, max, 0);
}

proof fn lemma_no_reemission_from(
    items: Seq<CandidateItem>,
    seen: Seq<String>,
    entries: Seq<RegionEntry>,
    max: nat,
    i: int,
)
    requires
        0 <= i <= items.len(),
    ensures
        forall|k: int|
            0 <= k < spec_build_from(items, seen, entries, max, i).len() ==> !seen_contains(
                seen,
                #[trigger] spec_build_from(items, seen, entries, max, i)[k].url,
            ),
    decreases items.len() - i,
{
    if i >= items.len() {
    } else {
        lemma_no_reemission_from(items, seen, entries, max, i + 1);
        let cur = spec_build_from(items, seen, entries, max, i);
        let rest = spec_build_from(items, seen, entries, max, i + 1);
        if !seen_contains(seen, items[i].url@) {
            assert forall|k: int| 0 <= k < cur.len() implies !seen_contains(
                seen,
                #[trigger] cur[k].url,
            ) by {
                if k > 0 {
                    assert(cur[k] == rest[k - 1]);
                }
            }
        }
    }
}

} // verus!
