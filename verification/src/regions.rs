//! The keyphrase index and region tagger: classifies free text into a
//! controlled region vocabulary by literal substring match, and resolves
//! country names to region codes.

use vstd::prelude::*;
use crate::text::{chars_of, contains_chars, contains_seq, str_eq};

verus! {

/// One region of the controlled vocabulary with the keyphrases that mark
/// a text as concerning it.
pub struct RegionEntry {
    pub region: String,
    pub phrases: Vec<String>,
}

/// Some keyphrase of `phrases` occurs in the fragment `frag`.
pub open spec fn phrase_hits(phrases: Seq<String>, frag: Seq<char>) -> bool {
    exists|k: int| 0 <= k < phrases.len() && contains_seq(frag, phrases[k]@)
}

/// The character sequences of a list of fragment strings.
pub open spec fn frag_views(frags: Seq<String>) -> Seq<Seq<char>> {
    frags.map_values(|s: String| s@)
}

/// Some fragment contains some keyphrase of the entry.
pub open spec fn entry_matches(e: RegionEntry, frags: Seq<Seq<char>>) -> bool {
    exists|f: int| 0 <= f < frags.len() && phrase_hits(e.phrases@, frags[f])
}

/// The regions of `entries[i..]`, in index order, whose keyphrases occur in
/// some fragment.
pub open spec fn spec_tag_from(entries: Seq<RegionEntry>, frags: Seq<Seq<char>>, i: int) -> Seq<
    Seq<char>,
>
    recommends
        0 <= i <= entries.len(),
    decreases entries.len() - i when 0 <= i <= entries.len()
{
    if i >= entries.len() {
        Seq::empty()
    } else if entry_matches(entries[i], frags) {
        seq![entries[i].region@] + spec_tag_from(entries, frags, i + 1)
    } else {
        spec_tag_from(entries, frags, i + 1)
    }
}

/// The regions, in index order, whose keyphrases occur in some fragment.
pub open spec fn spec_tag(entries: Seq<RegionEntry>, frags: Seq<Seq<char>>) -> Seq<Seq<char>> {
    spec_tag_from(entries, frags, 0)
}

/// Some entry of `entries` is for the region named `name`.
pub open spec fn spec_has_region(entries: Seq<RegionEntry>, name: Seq<char>) -> bool {
    exists|i: int| 0 <= i < entries.len() && entries[i].region@ == name
}

/// An immutable mapping from region to keyphrases, loaded once per run.
/// Only regions with at least one resolvable keyphrase are kept, and
/// each region has exactly one entry.
pub struct KeyphraseIndex {
    pub entries: Vec<RegionEntry>,
}

impl KeyphraseIndex {
    /// The index is a mapping: every region of the index has a non-empty
    /// keyphrase set, and no two entries share a region.
    pub open spec fn wf(&self) -> bool {
        &&& forall|i: int| 0 <= i < self.entries@.len() ==> self.entries@[i].phrases@.len() >= 1
        &&& forall|i: int, j: int|
            #![trigger self.entries@[i].region, self.entries@[j].region]
            0 <= i < j < self.entries@.len() ==> self.entries@[i].region@
                != self.entries@[j].region@
    }

    /// Creates an empty index.
    pub fn new() -> (r: Self)
        ensures
            r.entries@.len() == 0,
            r.wf(),
    {
        KeyphraseIndex { entries: Vec::new() }
    }

    /// Adds a region with its keyphrases. A region with no keyphrases,
    /// or one the index already holds, is dropped, reported by the
    /// `false` result as a soft failure.
    pub fn add_region(&mut self, region: String, phrases: Vec<String>) -> (added: bool)
        requires
            old(self).wf(),
        ensures
            final(self).wf(),
            added == (phrases@.len() >= 1 && !spec_has_region(old(self).entries@, region@)),
            added ==> final(self).entries@ == old(self).entries@.push(
                (RegionEntry { region, phrases }),
            ),
            !added ==> final(self).entries@ == old(self).entries@,
    {
        if phrases.len() == 0 {
            return false;
        }
        let mut i: usize = 0;
        while i < self.entries.len()
            invariant
                0 <= i <= self.entries@.len(),
                self.entries@ == old(self).entries@,
                self.wf(),
                forall|j: int| 0 <= j < i ==> self.entries@[j].region@ != region@,
            decreases self.entries@.len() - i,
        {
            if str_eq(self.entries[i].region.as_str(), region.as_str()) {
                proof {
                    assert(spec_has_region(self.entries@, region@));
                }
                return false;
            }
            i = i + 1;
        }
        proof {
            assert(!spec_has_region(self.entries@, region@)) by {
                if spec_has_region(self.entries@, region@) {
                    let j = choose|j: int|
                        0 <= j < self.entries@.len() && self.entries@[j].region@ == region@;
                    assert(self.entries@[j].region@ != region@);
                }
            }
        }
        let ghost entries0 = self.entries@;
        self.entries.push(RegionEntry { region, phrases });
        proof {
            let n = entries0.len() as int;
            assert forall|a: int, b: int|
                #![trigger self.entries@[a].region, self.entries@[b].region]
                0 <= a < b < self.entries@.len() implies self.entries@[a].region@
                != self.entries@[b].region@ by {
                if b < n {
                    assert(entries0[a].region@ != entries0[b].region@);
                } else {
                    assert(self.entries@[b].region@ == region@);
                    assert(entries0[a].region@ != region@);
                }
            }
        }
        true
    }

    /// Reports whether some fragment contains some keyphrase of `e`.
    fn entry_hit(e: &RegionEntry, fragments: &Vec<String>) -> (r: bool)
        ensures
            r == entry_matches(*e, frag_views(fragments@)),
    {
        let mut f: usize = 0;
        while f < fragments.len()
            invariant
                0 <= f <= fragments@.len(),
                forall|g: int| 0 <= g < f ==> !phrase_hits(e.phrases@, frag_views(fragments@)[g]),
            decreases fragments@.len() - f,
        {
            let frag = chars_of(fragments[f].as_str());
            let mut k: usize = 0;
            while k < e.phrases.len()
                invariant
                    0 <= k <= e.phrases@.len(),
                    frag@ == frag_views(fragments@)[f as int],
                    f < fragments@.len(),
                    forall|m: int|
                        0 <= m < k ==> !contains_seq(frag_views(fragments@)[f as int], e.phrases@[m]@),
                decreases e.phrases@.len() - k,
            {
                let p = chars_of(e.phrases[k].as_str());
                if contains_chars(&frag, &p) {
                    proof {
                        assert(phrase_hits(e.phrases@, frag_views(fragments@)[f as int]));
                        assert(entry_matches(*e, frag_views(fragments@)));
                    }
                    return true;
                }
                k = k + 1;
            }
            proof {
                assert(!phrase_hits(e.phrases@, frag_views(fragments@)[f as int]));
            }
            f = f + 1;
        }
        proof {
            assert(!entry_matches(*e, frag_views(fragments@)));
        }
        false
    }

    /// Tags the given text fragments: returns the regions, in index order,
    /// one of whose keyphrases occurs as a substring of some fragment.
    /// Matches are unioned across fragments; the result may be empty,
    /// and on a well-formed index it holds no duplicate identifier.
    pub fn tag(&self, fragments: &Vec<String>) -> (r: Vec<String>)
        ensures
            r@.map_values(|s: String| s@) == spec_tag(self.entries@, frag_views(fragments@)),
            self.wf() ==> forall|a: int, b: int| 0 <= a < b < r@.len() ==> r@[a]@ != r@[b]@,
    {
        let mut r: Vec<String> = Vec::new();
        let mut i: usize = 0;
        proof {
            assert(r@.map_values(|s: String| s@) =~= Seq::<Seq<char>>::empty());
        }
        while i < self.entries.len()
            invariant
                0 <= i <= self.entries@.len(),
                r@.map_values(|s: String| s@) + spec_tag_from(
                    self.entries@,
                    frag_views(fragments@),
                    i as int,
                ) == spec_tag(self.entries@, frag_views(fragments@)),
            decreases self.entries@.len() - i,
        {
            let ghost r0 = r@;
            if Self::entry_hit(&self.entries[i], fragments) {
                let name = self.entries[i].region.clone();
                r.push(name);
                proof {
                    assert(r@.map_values(|s: String| s@) =~= r0.map_values(|s: String| s@).push(
                        self.entries@[i as int].region@,
                    ));
                    assert(r@.map_values(|s: String| s@) + spec_tag_from(
                        self.entries@,
                        frag_views(fragments@),
                        i as int + 1,
                    ) =~= r0.map_values(|s: String| s@) + spec_tag_from(
                        self.entries@,
                        frag_views(fragments@),
                        i as int,
                    ));
                }
            } else {
                proof {
                    assert(r@.map_values(|s: String| s@) + spec_tag_from(
                        self.entries@,
                        frag_views(fragments@),
                        i as int + 1,
                    ) =~= r0.map_values(|s: String| s@) + spec_tag_from(
                        self.entries@,
                        frag_views(fragments@),
                        i as int,
                    ));
                }
            }
            i = i + 1;
        }
        proof {
            assert(r@.map_values(|s: String| s@) + spec_tag_from(
                self.entries@,
                frag_views(fragments@),
                i as int,
            ) =~= r@.map_values(|s: String| s@));
            if self.wf() {
                lemma_tag_distinct(self.entries@, frag_views(fragments@));
                assert forall|a: int, b: int| 0 <= a < b < r@.len() implies r@[a]@ != r@[b]@ by {
                    assert(r@.map_values(|s: String| s@)[a] == r@[a]@);
                    assert(r@.map_values(|s: String| s@)[b] == r@[b]@);
                }
            }
        }
        r
    }
}

/// A match against more fragments is still a match.
proof fn lemma_entry_matches_monotonic(e: RegionEntry, frags1: Seq<Seq<char>>, frags2: Seq<Seq<char>>)
    requires
        forall|f: int| 0 <= f < frags1.len() ==> frags2.contains(#[trigger] frags1[f]),
        entry_matches(e, frags1),
    ensures
        entry_matches(e, frags2),
{
    let f = choose|f: int| 0 <= f < frags1.len() && phrase_hits(e.phrases@, frags1[f]);
    assert(frags2.contains(frags1[f]));
    let g = choose|g: int| 0 <= g < frags2.len() && frags2[g] == frags1[f];
    assert(phrase_hits(e.phrases@, frags2[g]));
}

proof fn lemma_tag_from_monotonic(
    entries: Seq<RegionEntry>,
    frags1: Seq<Seq<char>>,
    frags2: Seq<Seq<char>>,
    i: int,
)
    requires
        0 <= i <= entries.len(),
        forall|f: int| 0 <= f < frags1.len() ==> frags2.contains(#[trigger] frags1[f]),
    ensures
        forall|r: Seq<char>|
            spec_tag_from(entries, frags1, i).contains(r) ==> spec_tag_from(
                entries,
                frags2,
                i,
            ).contains(r),
    decreases entries.len() - i,
{
    if i >= entries.len() {
    } else {
        lemma_tag_from_monotonic(entries, frags1, frags2, i + 1);
        let t1 = spec_tag_from(entries, frags1, i);
        let t2 = spec_tag_from(entries, frags2, i);
        let r1 = spec_tag_from(entries, frags1, i + 1);
        let r2 = spec_tag_from(entries, frags2, i + 1);
        assert forall|r: Seq<char>| t1.contains(r) implies t2.contains(r) by {
            if entry_matches(entries[i], frags1) {
                lemma_entry_matches_monotonic(entries[i], frags1, frags2);
                let idx = choose|idx: int| 0 <= idx < t1.len() && t1[idx] == r;
                if idx == 0 {
                    assert(t2[0] == r);
                } else {
                    assert(r1[idx - 1] == r);
                    assert(r1.contains(r));
                    assert(r2.contains(r));
                    let jdx = choose|jdx: int| 0 <= jdx < r2.len() && r2[jdx] == r;
                    assert(t2[jdx + 1] == r);
                }
            } else {
                assert(r1.contains(r));
                assert(r2.contains(r));
                if entry_matches(entries[i], frags2) {
                    let jdx = choose|jdx: int| 0 <= jdx < r2.len() && r2[jdx] == r;
                    assert(t2[jdx + 1] == r);
                }
            }
        }
    }
}

/// `v` is the region name of some entry with index at least `i`.
pub open spec fn from_entry_at_or_after(entries: Seq<RegionEntry>, i: int, v: Seq<char>) -> bool {
    exists|j: int| i <= j < entries.len() && entries[j].region@ == v
}

proof fn lemma_tag_from_membership(entries: Seq<RegionEntry>, frags: Seq<Seq<char>>, i: int)
    requires
        0 <= i <= entries.len(),
    ensures
        forall|k: int|
            0 <= k < spec_tag_from(entries, frags, i).len() ==> from_entry_at_or_after(
                entries,
                i,
                #[trigger] spec_tag_from(entries, frags, i)[k],
            ),
    decreases entries.len() - i,
{
    if i >= entries.len() {
    } else {
        lemma_tag_from_membership(entries, frags, i + 1);
        let cur = spec_tag_from(entries, frags, i);
        let rest = spec_tag_from(entries, frags, i + 1);
        assert forall|k: int| 0 <= k < cur.len() implies from_entry_at_or_after(
            entries,
            i,
            cur[k],
        ) by {
            if entry_matches(entries[i], frags) {
                if k == 0 {
                    assert(cur[0] == entries[i].region@);
                } else {
                    assert(cur[k] == rest[k - 1]);
                    assert(from_entry_at_or_after(entries, i + 1, rest[k - 1]));
                    let j = choose|j: int|
                        i + 1 <= j < entries.len() && entries[j].region@ == rest[k - 1];
                    assert(entries[j].region@ == cur[k]);
                }
            } else {
                assert(cur[k] == rest[k]);
                assert(from_entry_at_or_after(entries, i + 1, rest[k]));
                let j = choose|j: int| i + 1 <= j < entries.len() && entries[j].region@ == rest[k];
                assert(entries[j].region@ == cur[k]);
            }
        }
    }
}

proof fn lemma_tag_from_distinct(entries: Seq<RegionEntry>, frags: Seq<Seq<char>>, i: int)
    requires
        0 <= i <= entries.len(),
        forall|a: int, b: int|
            #![trigger entries[a].region, entries[b].region]
            0 <= a < b < entries.len() ==> entries[a].region@ != entries[b].region@,
    ensures
        forall|a: int, b: int|
            0 <= a < b < spec_tag_from(entries, frags, i).len() ==> spec_tag_from(
                entries,
                frags,
                i,
            )[a] != spec_tag_from(entries, frags, i)[b],
    decreases entries.len() - i,
{
    if i >= entries.len() {
    } else {
        lemma_tag_from_distinct(entries, frags, i + 1);
        lemma_tag_from_membership(entries, frags, i + 1);
        let cur = spec_tag_from(entries, frags, i);
        let rest = spec_tag_from(entries, frags, i + 1);
        assert forall|a: int, b: int| 0 <= a < b < cur.len() implies cur[a] != cur[b] by {
            if entry_matches(entries[i], frags) {
                if a == 0 {
                    assert(cur[0] == entries[i].region@);
                    assert(cur[b] == rest[b - 1]);
                    assert(from_entry_at_or_after(entries, i + 1, rest[b - 1]));
                    let j = choose|j: int|
                        i + 1 <= j < entries.len() && entries[j].region@ == rest[b - 1];
                    assert(entries[i].region@ != entries[j].region@);
                } else {
                    assert(cur[a] == rest[a - 1]);
                    assert(cur[b] == rest[b - 1]);
                }
            } else {
                assert(cur[a] == rest[a]);
                assert(cur[b] == rest[b]);
            }
        }
    }
}

/// The tagger emits each region at most once: when the index entries
/// name pairwise distinct regions, the tagged region list holds no
/// duplicate identifier — it denotes a set of regions.
pub proof fn lemma_tag_distinct(entries: Seq<RegionEntry>, frags: Seq<Seq<char>>)
    requires
        forall|a: int, b: int|
            #![trigger entries[a].region, entries[b].region]
            0 <= a < b < entries.len() ==> entries[a].region@ != entries[b].region@,
    ensures
        forall|a: int, b: int|
            0 <= a < b < spec_tag(entries, frags).len() ==> spec_tag(entries, frags)[a]
                != spec_tag(entries, frags)[b],
{
    lemma_tag_from_distinct(entries, frags, 0);
}

/// Region tagging is monotonic in its input: every region reported for a
/// set of fragments is also reported for any larger set of fragments, for
/// any keyphrase index. In particular, tagging a title together with a
/// body yields a superset of the regions found for the title alone.
pub proof fn lemma_tag_monotonic(
    entries: Seq<RegionEntry>,
    frags1: Seq<Seq<char>>,
    frags2: Seq<Seq<char>>,
)
    requires
        forall|f: int| 0 <= f < frags1.len() ==> frags2.contains(#[trigger] frags1[f]),
    ensures
        forall|r: Seq<char>|
            spec_tag(entries, frags1).contains(r) ==> spec_tag(entries, frags2).contains(r),
{
    lemma_tag_from_monotonic(entries, frags1, frags2, 0);
}

/// The region code that a country or citizenship name resolves to in the
/// library's controlled vocabulary, or nothing for an unknown name.
pub open spec fn spec_iso_from_name(name: Seq<char>) -> Option<Seq<char>> {
    if name == "United States"@ {
        Some("US"@)
    } else if name == "United Kingdom"@ {
        Some("GB"@)
    } else if name == "France"@ {
        Some("FR"@)
    } else if name == "Germany"@ {
        Some("DE"@)
    } else if name == "India"@ {
        Some("IN"@)
    } else if name == "China"@ {
        Some("CN"@)
    } else if name == "Mexico"@ {
        Some("MX"@)
    } else if name == "Canada"@ {
        Some("CA"@)
    } else if name == "Italy"@ {
        Some("IT"@)
    } else if name == "Spain"@ {
        Some("ES"@)
    } else if name == "Japan"@ {
        Some("JP"@)
    } else if name == "Australia"@ {
        Some("AU"@)
    } else if name == "Russia"@ {
        Some("RU"@)
    } else if name == "Brazil"@ {
        Some("BR"@)
    } else if name == "Switzerland"@ {
        Some("CH"@)
    } else if name == "Sweden"@ {
        Some("SE"@)
    } else if name == "Netherlands"@ {
        Some("NL"@)
    } else if name == "Austria"@ {
        Some("AT"@)
    } else if name == "Israel"@ {
        Some("IL"@)
    } else if name == "Indonesia"@ {
        Some("ID"@)
    } else if name == "Hong Kong"@ {
        Some("HK"@)
    } else if name == "Singapore"@ {
        Some("SG"@)
    } else if name == "South Korea"@ {
        Some("KR"@)
    } else if name == "Ireland"@ {
        Some("IE"@)
    } else if name == "Denmark"@ {
        Some("DK"@)
    } else if name == "Norway"@ {
        Some("NO"@)
    } else if name == "Belgium"@ {
        Some("BE"@)
    } else if name == "Chile"@ {
        Some("CL"@)
    } else if name == "Nigeria"@ {
        Some("NG"@)
    } else if name == "Egypt"@ {
        Some("EG"@)
    } else if name == "Saudi Arabia"@ {
        Some("SA"@)
    } else if name == "United Arab Emirates"@ {
        Some("AE"@)
    } else if name == "Taiwan"@ {
        Some("TW"@)
    } else if name == "Thailand"@ {
        Some("TH"@)
    } else if name == "Turkey"@ {
        Some("TR"@)
    } else if name == "Colombia"@ {
        Some("CO"@)
    } else if name == "Czech Republic"@ {
        Some("CZ"@)
    } else if name == "Czechia"@ {
        Some("CZ"@)
    } else if name == "Poland"@ {
        Some("PL"@)
    } else if name == "Finland"@ {
        Some("FI"@)
    } else if name == "Portugal"@ {
        Some("PT"@)
    } else if name == "Greece"@ {
        Some("GR"@)
    } else if name == "Hungary"@ {
        Some("HU"@)
    } else if name == "Romania"@ {
        Some("RO"@)
    } else if name == "Ukraine"@ {
        Some("UA"@)
    } else if name == "Kazakhstan"@ {
        Some("KZ"@)
    } else if name == "Georgia"@ {
        Some("GE"@)
    } else if name == "Monaco"@ {
        Some("MC"@)
    } else if name == "Cyprus"@ {
        Some("CY"@)
    } else if name == "Malaysia"@ {
        Some("MY"@)
    } else if name == "Philippines"@ {
        Some("PH"@)
    } else if name == "Vietnam"@ {
        Some("VN"@)
    } else if name == "South Africa"@ {
        Some("ZA"@)
    } else if name == "Morocco"@ {
        Some("MA"@)
    } else if name == "Algeria"@ {
        Some("DZ"@)
    } else if name == "Kenya"@ {
        Some("KE"@)
    } else if name == "Tanzania"@ {
        Some("TZ"@)
    } else if name == "Zimbabwe"@ {
        Some("ZW"@)
    } else if name == "Argentina"@ {
        Some("AR"@)
    } else if name == "Peru"@ {
        Some("PE"@)
    } else if name == "Uruguay"@ {
        Some("UY"@)
    } else if name == "Venezuela"@ {
        Some("VE"@)
    } else if name == "Guernsey"@ {
        Some("GG"@)
    } else if name == "Liechtenstein"@ {
        Some("LI"@)
    } else if name == "Luxembourg"@ {
        Some("LU"@)
    } else if name == "Iceland"@ {
        Some("IS"@)
    } else if name == "Estonia"@ {
        Some("EE"@)
    } else if name == "Latvia"@ {
        Some("LV"@)
    } else if name == "Lithuania"@ {
        Some("LT"@)
    } else if name == "New Zealand"@ {
        Some("NZ"@)
    } else if name == "Nepal"@ {
        Some("NP"@)
    } else if name == "Bangladesh"@ {
        Some("BD"@)
    } else if name == "Pakistan"@ {
        Some("PK"@)
    } else if name == "Sri Lanka"@ {
        Some("LK"@)
    } else if name == "Qatar"@ {
        Some("QA"@)
    } else if name == "Kuwait"@ {
        Some("KW"@)
    } else if name == "Bahrain"@ {
        Some("BH"@)
    } else if name == "Oman"@ {
        Some("OM"@)
    } else if name == "Jordan"@ {
        Some("JO"@)
    } else if name == "Lebanon"@ {
        Some("LB"@)
    } else if name == "Iraq"@ {
        Some("IQ"@)
    } else if name == "Iran"@ {
        Some("IR"@)
    } else if name == "Armenia"@ {
        Some("AM"@)
    } else if name == "Azerbaijan"@ {
        Some("AZ"@)
    } else if name == "Belarus"@ {
        Some("BY"@)
    } else if name == "Bulgaria"@ {
        Some("BG"@)
    } else if name == "Croatia"@ {
        Some("HR"@)
    } else if name == "Serbia"@ {
        Some("RS"@)
    } else if name == "Slovakia"@ {
        Some("SK"@)
    } else if name == "Slovenia"@ {
        Some("SI"@)
    } else if name == "Macau"@ {
        Some("MO"@)
    } else if name == "Mongolia"@ {
        Some("MN"@)
    } else if name == "Cambodia"@ {
        Some("KH"@)
    } else if name == "Myanmar"@ {
        Some("MM"@)
    } else if name == "Laos"@ {
        Some("LA"@)
    } else if name == "Brunei"@ {
        Some("BN"@)
    } else if name == "Fiji"@ {
        Some("FJ"@)
    } else if name == "Ecuador"@ {
        Some("EC"@)
    } else if name == "Bolivia"@ {
        Some("BO"@)
    } else if name == "Paraguay"@ {
        Some("PY"@)
    } else if name == "Panama"@ {
        Some("PA"@)
    } else if name == "Costa Rica"@ {
        Some("CR"@)
    } else if name == "Guatemala"@ {
        Some("GT"@)
    } else if name == "Honduras"@ {
        Some("HN"@)
    } else if name == "Nicaragua"@ {
        Some("NI"@)
    } else if name == "El Salvador"@ {
        Some("SV"@)
    } else if name == "Dominican Republic"@ {
        Some("DO"@)
    } else if name == "Cuba"@ {
        Some("CU"@)
    } else if name == "Jamaica"@ {
        Some("JM"@)
    } else if name == "Haiti"@ {
        Some("HT"@)
    } else if name == "Bahamas"@ {
        Some("BS"@)
    } else if name == "Barbados"@ {
        Some("BB"@)
    } else if name == "Trinidad and Tobago"@ {
        Some("TT"@)
    } else if name == "Ghana"@ {
        Some("GH"@)
    } else if name == "Uganda"@ {
        Some("UG"@)
    } else if name == "Ethiopia"@ {
        Some("ET"@)
    } else if name == "Senegal"@ {
        Some("SN"@)
    } else if name == "Ivory Coast"@ {
        Some("CI"@)
    } else if name == "Cameroon"@ {
        Some("CM"@)
    } else if name == "Angola"@ {
        Some("AO"@)
    } else if name == "Mozambique"@ {
        Some("MZ"@)
    } else if name == "Zambia"@ {
        Some("ZM"@)
    } else if name == "Botswana"@ {
        Some("BW"@)
    } else if name == "Namibia"@ {
        Some("NA"@)
    } else if name == "Tunisia"@ {
        Some("TN"@)
    } else if name == "Libya"@ {
        Some("LY"@)
    } else if name == "Sudan"@ {
        Some("SD"@)
    } else if name == "Afghanistan"@ {
        Some("AF"@)
    } else if name == "Albania"@ {
        Some("AL"@)
    } else if name == "Andorra"@ {
        Some("AD"@)
    } else if name == "Malta"@ {
        Some("MT"@)
    } else if name == "Moldova"@ {
        Some("MD"@)
    } else if name == "North Macedonia"@ {
        Some("MK"@)
    } else if name == "Montenegro"@ {
        Some("ME"@)
    } else if name == "Bosnia and Herzegovina"@ {
        Some("BA"@)
    } else if name == "Uzbekistan"@ {
        Some("UZ"@)
    } else if name == "Turkmenistan"@ {
        Some("TM"@)
    } else if name == "Kyrgyzstan"@ {
        Some("KG"@)
    } else if name == "Tajikistan"@ {
        Some("TJ"@)
    } else if name == "Yemen"@ {
        Some("YE"@)
    } else if name == "Syria"@ {
        Some("SY"@)
    } else if name == "North Korea"@ {
        Some("KP"@)
    } else if name == "Bhutan"@ {
        Some("BT"@)
    } else if name == "Maldives"@ {
        Some("MV"@)
    } else if name == "Madagascar"@ {
        Some("MG"@)
    } else if name == "Mauritius"@ {
        Some("MU"@)
    } else if name == "Seychelles"@ {
        Some("SC"@)
    } else if name == "Rwanda"@ {
        Some("RW"@)
    } else if name == "Somalia"@ {
        Some("SO"@)
    } else if name == "Democratic Republic of the Congo"@ {
        Some("CD"@)
    } else if name == "Republic of the Congo"@ {
        Some("CG"@)
    } else if name == "Gabon"@ {
        Some("GA"@)
    } else if name == "Mali"@ {
        Some("ML"@)
    } else if name == "Niger"@ {
        Some("NE"@)
    } else if name == "Chad"@ {
        Some("TD"@)
    } else if name == "Benin"@ {
        Some("BJ"@)
    } else if name == "Togo"@ {
        Some("TG"@)
    } else if name == "Burkina Faso"@ {
        Some("BF"@)
    } else if name == "Guinea"@ {
        Some("GN"@)
    } else if name == "Sierra Leone"@ {
        Some("SL"@)
    } else if name == "Liberia"@ {
        Some("LR"@)
    } else if name == "Gambia"@ {
        Some("GM"@)
    } else if name == "Mauritania"@ {
        Some("MR"@)
    } else if name == "Eritrea"@ {
        Some("ER"@)
    } else if name == "Djibouti"@ {
        Some("DJ"@)
    } else if name == "Malawi"@ {
        Some("MW"@)
    } else if name == "Lesotho"@ {
        Some("LS"@)
    } else if name == "Eswatini"@ {
        Some("SZ"@)
    } else if name == "Guyana"@ {
        Some("GY"@)
    } else if name == "Suriname"@ {
        Some("SR"@)
    } else if name == "Belize"@ {
        Some("BZ"@)
    } else if name == "Papua New Guinea"@ {
        Some("PG"@)
    } else {
        None
    }
}

/// Resolves a free-text country or citizenship name to its region code.
#[verifier::rlimit(100)]
pub fn get_iso_from_name(name: &str) -> (r: Option<String>)
    ensures
        r matches Some(c) ==> spec_iso_from_name(name@) == Some(c@),
        r is None ==> spec_iso_from_name(name@) is None,
{
    if str_eq(name, "United States") {
        Some("US".to_owned())
    } else if str_eq(name, "United Kingdom") {
        Some("GB".to_owned())
    } else if str_eq(name, "France") {
        Some("FR".to_owned())
    } else if str_eq(name, "Germany") {
        Some("DE".to_owned())
    } else if str_eq(name, "India") {
        Some("IN".to_owned())
    } else if str_eq(name, "China") {
        Some("CN".to_owned())
    } else if str_eq(name, "Mexico") {
        Some("MX".to_owned())
    } else if str_eq(name, "Canada") {
        Some("CA".to_owned())
    } else if str_eq(name, "Italy") {
        Some("IT".to_owned())
    } else if str_eq(name, "Spain") {
        Some("ES".to_owned())
    } else if str_eq(name, "Japan") {
        Some("JP".to_owned())
    } else if str_eq(name, "Australia") {
        Some("AU".to_owned())
    } else if str_eq(name, "Russia") {
        Some("RU".to_owned())
    } else if str_eq(name, "Brazil") {
        Some("BR".to_owned())
    } else if str_eq(name, "Switzerland") {
        Some("CH".to_owned())
    } else if str_eq(name, "Sweden") {
        Some("SE".to_owned())
    } else if str_eq(name, "Netherlands") {
        Some("NL".to_owned())
    } else if str_eq(name, "Austria") {
        Some("AT".to_owned())
    } else if str_eq(name, "Israel") {
        Some("IL".to_owned())
    } else if str_eq(name, "Indonesia") {
        Some("ID".to_owned())
    } else if str_eq(name, "Hong Kong") {
        Some("HK".to_owned())
    } else if str_eq(name, "Singapore") {
        Some("SG".to_owned())
    } else if str_eq(name, "South Korea") {
        Some("KR".to_owned())
    } else if str_eq(name, "Ireland") {
        Some("IE".to_owned())
    } else if str_eq(name, "Denmark") {
        Some("DK".to_owned())
    } else if str_eq(name, "Norway") {
        Some("NO".to_owned())
    } else if str_eq(name, "Belgium") {
        Some("BE".to_owned())
    } else if str_eq(name, "Chile") {
        Some("CL".to_owned())
    } else if str_eq(name, "Nigeria") {
        Some("NG".to_owned())
    } else if str_eq(name, "Egypt") {
        Some("EG".to_owned())
    } else if str_eq(name, "Saudi Arabia") {
        Some("SA".to_owned())
    } else if str_eq(name, "United Arab Emirates") {
        Some("AE".to_owned())
    } else if str_eq(name, "Taiwan") {
        Some("TW".to_owned())
    } else if str_eq(name, "Thailand") {
        Some("TH".to_owned())
    } else if str_eq(name, "Turkey") {
        Some("TR".to_owned())
    } else if str_eq(name, "Colombia") {
        Some("CO".to_owned())
    } else if str_eq(name, "Czech Republic") {
        Some("CZ".to_owned())
    } else if str_eq(name, "Czechia") {
        Some("CZ".to_owned())
    } else if str_eq(name, "Poland") {
        Some("PL".to_owned())
    } else if str_eq(name, "Finland") {
        Some("FI".to_owned())
    } else if str_eq(name, "Portugal") {
        Some("PT".to_owned())
    } else if str_eq(name, "Greece") {
        Some("GR".to_owned())
    } else if str_eq(name, "Hungary") {
        Some("HU".to_owned())
    } else if str_eq(name, "Romania") {
        Some("RO".to_owned())
    } else if str_eq(name, "Ukraine") {
        Some("UA".to_owned())
    } else if str_eq(name, "Kazakhstan") {
        Some("KZ".to_owned())
    } else if str_eq(name, "Georgia") {
        Some("GE".to_owned())
    } else if str_eq(name, "Monaco") {
        Some("MC".to_owned())
    } else if str_eq(name, "Cyprus") {
        Some("CY".to_owned())
    } else if str_eq(name, "Malaysia") {
        Some("MY".to_owned())
    } else if str_eq(name, "Philippines") {
        Some("PH".to_owned())
    } else if str_eq(name, "Vietnam") {
        Some("VN".to_owned())
    } else if str_eq(name, "South Africa") {
        Some("ZA".to_owned())
    } else if str_eq(name, "Morocco") {
        Some("MA".to_owned())
    } else if str_eq(name, "Algeria") {
        Some("DZ".to_owned())
    } else if str_eq(name, "Kenya") {
        Some("KE".to_owned())
    } else if str_eq(name, "Tanzania") {
        Some("TZ".to_owned())
    } else if str_eq(name, "Zimbabwe") {
        Some("ZW".to_owned())
    } else if str_eq(name, "Argentina") {
        Some("AR".to_owned())
    } else if str_eq(name, "Peru") {
        Some("PE".to_owned())
    } else if str_eq(name, "Uruguay") {
        Some("UY".to_owned())
    } else if str_eq(name, "Venezuela") {
        Some("VE".to_owned())
    } else if str_eq(name, "Guernsey") {
        Some("GG".to_owned())
    } else if str_eq(name, "Liechtenstein") {
        Some("LI".to_owned())
    } else if str_eq(name, "Luxembourg") {
        Some("LU".to_owned())
    } else if str_eq(name, "Iceland") {
        Some("IS".to_owned())
    } else if str_eq(name, "Estonia") {
        Some("EE".to_owned())
    } else if str_eq(name, "Latvia") {
        Some("LV".to_owned())
    } else if str_eq(name, "Lithuania") {
        Some("LT".to_owned())
    } else if str_eq(name, "New Zealand") {
        Some("NZ".to_owned())
    } else if str_eq(name, "Nepal") {
        Some("NP".to_owned())
    } else if str_eq(name, "Bangladesh") {
        Some("BD".to_owned())
    } else if str_eq(name, "Pakistan") {
        Some("PK".to_owned())
    } else if str_eq(name, "Sri Lanka") {
        Some("LK".to_owned())
    } else if str_eq(name, "Qatar") {
        Some("QA".to_owned())
    } else if str_eq(name, "Kuwait") {
        Some("KW".to_owned())
    } else if str_eq(name, "Bahrain") {
        Some("BH".to_owned())
    } else if str_eq(name, "Oman") {
        Some("OM".to_owned())
    } else if str_eq(name, "Jordan") {
        Some("JO".to_owned())
    } else if str_eq(name, "Lebanon") {
        Some("LB".to_owned())
    } else if str_eq(name, "Iraq") {
        Some("IQ".to_owned())
    } else if str_eq(name, "Iran") {
        Some("IR".to_owned())
    } else if str_eq(name, "Armenia") {
        Some("AM".to_owned())
    } else if str_eq(name, "Azerbaijan") {
        Some("AZ".to_owned())
    } else if str_eq(name, "Belarus") {
        Some("BY".to_owned())
    } else if str_eq(name, "Bulgaria") {
        Some("BG".to_owned())
    } else if str_eq(name, "Croatia") {
        Some("HR".to_owned())
    } else if str_eq(name, "Serbia") {
        Some("RS".to_owned())
    } else if str_eq(name, "Slovakia") {
        Some("SK".to_owned())
    } else if str_eq(name, "Slovenia") {
        Some("SI".to_owned())
    } else if str_eq(name, "Macau") {
        Some("MO".to_owned())
    } else if str_eq(name, "Mongolia") {
        Some("MN".to_owned())
    } else if str_eq(name, "Cambodia") {
        Some("KH".to_owned())
    } else if str_eq(name, "Myanmar") {
        Some("MM".to_owned())
    } else if str_eq(name, "Laos") {
        Some("LA".to_owned())
    } else if str_eq(name, "Brunei") {
        Some("BN".to_owned())
    } else if str_eq(name, "Fiji") {
        Some("FJ".to_owned())
    } else if str_eq(name, "Ecuador") {
        Some("EC".to_owned())
    } else if str_eq(name, "Bolivia") {
        Some("BO".to_owned())
    } else if str_eq(name, "Paraguay") {
        Some("PY".to_owned())
    } else if str_eq(name, "Panama") {
        Some("PA".to_owned())
    } else if str_eq(name, "Costa Rica") {
        Some("CR".to_owned())
    } else if str_eq(name, "Guatemala") {
        Some("GT".to_owned())
    } else if str_eq(name, "Honduras") {
        Some("HN".to_owned())
    } else if str_eq(name, "Nicaragua") {
        Some("NI".to_owned())
    } else if str_eq(name, "El Salvador") {
        Some("SV".to_owned())
    } else if str_eq(name, "Dominican Republic") {
        Some("DO".to_owned())
    } else if str_eq(name, "Cuba") {
        Some("CU".to_owned())
    } else if str_eq(name, "Jamaica") {
        Some("JM".to_owned())
    } else if str_eq(name, "Haiti") {
        Some("HT".to_owned())
    } else if str_eq(name, "Bahamas") {
        Some("BS".to_owned())
    } else if str_eq(name, "Barbados") {
        Some("BB".to_owned())
    } else if str_eq(name, "Trinidad and Tobago") {
        Some("TT".to_owned())
    } else if str_eq(name, "Ghana") {
        Some("GH".to_owned())
    } else if str_eq(name, "Uganda") {
        Some("UG".to_owned())
    } else if str_eq(name, "Ethiopia") {
        Some("ET".to_owned())
    } else if str_eq(name, "Senegal") {
        Some("SN".to_owned())
    } else if str_eq(name, "Ivory Coast") {
        Some("CI".to_owned())
    } else if str_eq(name, "Cameroon") {
        Some("CM".to_owned())
    } else if str_eq(name, "Angola") {
        Some("AO".to_owned())
    } else if str_eq(name, "Mozambique") {
        Some("MZ".to_owned())
    } else if str_eq(name, "Zambia") {
        Some("ZM".to_owned())
    } else if str_eq(name, "Botswana") {
        Some("BW".to_owned())
    } else if str_eq(name, "Namibia") {
        Some("NA".to_owned())
    } else if str_eq(name, "Tunisia") {
        Some("TN".to_owned())
    } else if str_eq(name, "Libya") {
        Some("LY".to_owned())
    } else if str_eq(name, "Sudan") {
        Some("SD".to_owned())
    } else if str_eq(name, "Afghanistan") {
        Some("AF".to_owned())
    } else if str_eq(name, "Albania") {
        Some("AL".to_owned())
    } else if str_eq(name, "Andorra") {
        Some("AD".to_owned())
    } else if str_eq(name, "Malta") {
        Some("MT".to_owned())
    } else if str_eq(name, "Moldova") {
        Some("MD".to_owned())
    } else if str_eq(name, "North Macedonia") {
        Some("MK".to_owned())
    } else if str_eq(name, "Montenegro") {
        Some("ME".to_owned())
    } else if str_eq(name, "Bosnia and Herzegovina") {
        Some("BA".to_owned())
    } else if str_eq(name, "Uzbekistan") {
        Some("UZ".to_owned())
    } else if str_eq(name, "Turkmenistan") {
        Some("TM".to_owned())
    } else if str_eq(name, "Kyrgyzstan") {
        Some("KG".to_owned())
    } else if str_eq(name, "Tajikistan") {
        Some("TJ".to_owned())
    } else if str_eq(name, "Yemen") {
        Some("YE".to_owned())
    } else if str_eq(name, "Syria") {
        Some("SY".to_owned())
    } else if str_eq(name, "North Korea") {
        Some("KP".to_owned())
    } else if str_eq(name, "Bhutan") {
        Some("BT".to_owned())
    } else if str_eq(name, "Maldives") {
        Some("MV".to_owned())
    } else if str_eq(name, "Madagascar") {
        Some("MG".to_owned())
    } else if str_eq(name, "Mauritius") {
        Some("MU".to_owned())
    } else if str_eq(name, "Seychelles") {
        Some("SC".to_owned())
    } else if str_eq(name, "Rwanda") {
        Some("RW".to_owned())
    } else if str_eq(name, "Somalia") {
        Some("SO".to_owned())
    } else if str_eq(name, "Democratic Republic of the Congo") {
        Some("CD".to_owned())
    } else if str_eq(name, "Republic of the Congo") {
        Some("CG".to_owned())
    } else if str_eq(name, "Gabon") {
        Some("GA".to_owned())
    } else if str_eq(name, "Mali") {
        Some("ML".to_owned())
    } else if str_eq(name, "Niger") {
        Some("NE".to_owned())
    } else if str_eq(name, "Chad") {
        Some("TD".to_owned())
    } else if str_eq(name, "Benin") {
        Some("BJ".to_owned())
    } else if str_eq(name, "Togo") {
        Some("TG".to_owned())
    } else if str_eq(name, "Burkina Faso") {
        Some("BF".to_owned())
    } else if str_eq(name, "Guinea") {
        Some("GN".to_owned())
    } else if str_eq(name, "Sierra Leone") {
        Some("SL".to_owned())
    } else if str_eq(name, "Liberia") {
        Some("LR".to_owned())
    } else if str_eq(name, "Gambia") {
        Some("GM".to_owned())
    } else if str_eq(name, "Mauritania") {
        Some("MR".to_owned())
    } else if str_eq(name, "Eritrea") {
        Some("ER".to_owned())
    } else if str_eq(name, "Djibouti") {
        Some("DJ".to_owned())
    } else if str_eq(name, "Malawi") {
        Some("MW".to_owned())
    } else if str_eq(name, "Lesotho") {
        Some("LS".to_owned())
    } else if str_eq(name, "Eswatini") {
        Some("SZ".to_owned())
    } else if str_eq(name, "Guyana") {
        Some("GY".to_owned())
    } else if str_eq(name, "Suriname") {
        Some("SR".to_owned())
    } else if str_eq(name, "Belize") {
        Some("BZ".to_owned())
    } else if str_eq(name, "Papua New Guinea") {
        Some("PG".to_owned())
    } else {
        None
    }
}
} // verus!
