//! The listing scraper's decision logic: freshness of the index page,
//! extraction of candidate entries from its delimited item region, and
//! extraction of an article body from a detail page. All fetching stays
//! with the caller; every rule about the markup is verified here.

use vstd::prelude::*;
use crate::markup::{spec_strip, strip_markup};
use crate::text::{
    chars_of, contains_chars, contains_seq, first_match, lemma_first_match_from, look_between,
    spec_look_between, string_of, sub_chars,
};

verus! {

/// The marker before the index page's "last updated" date.
pub open spec fn updated_marker() -> Seq<char> {
    "<div align=\"right\">Updated "@
}

/// The marker that ends the "last updated" date.
pub open spec fn updated_end_marker() -> Seq<char> {
    " -"@
}

/// The heading that delimits the index page's item region on both sides.
pub open spec fn heading_marker() -> Seq<char> {
    "<tr><td colspan=\"2\"><h1>"@
}

/// The marker that starts each candidate item cell.
pub open spec fn item_marker() -> Seq<char> {
    "<td width=\"50%\">"@
}

/// The attribute prefix before a candidate's URL.
pub open spec fn href_marker() -> Seq<char> {
    "href=\""@
}

/// The date the index page reports itself updated on, or nothing when the
/// marker is absent.
pub open spec fn spec_index_date(page: Seq<char>) -> Option<Seq<char>> {
    spec_look_between(page, updated_marker(), updated_end_marker())
}

/// Extracts the date the index page reports itself updated on.
pub fn index_date(page: &str) -> (r: Option<String>)
    ensures
        r matches Some(d) ==> spec_index_date(page@) == Some(d@),
        r is None ==> spec_index_date(page@) is None,
{
    look_between(page, "<div align=\"right\">Updated ", " -")
}

/// Reports whether the index page is fresh for a run dated `today`: it
/// carries an update marker and the date it reports is exactly `today`.
/// A stale or unmarked page yields no candidate items for this cycle.
pub fn index_is_fresh(page: &str, today: &str) -> (r: bool)
    ensures
        r == (spec_index_date(page@) == Some(today@)),
{
    match index_date(page) {
        None => false,
        Some(d) => crate::text::str_eq(d.as_str(), today),
    }
}

/// Relies on chrono's `Local::now` and its `format` with `"%B %d, %Y"`:
/// renders the current local date as e.g. a full month name, day and year,
/// the form the index page reports. The result depends on the clock, so
/// nothing is promised of it.
#[verifier::external_body]
fn local_date_heading() -> (r: String) {
    chrono::Local::now().format("%B %d, %Y").to_string()
}

/// Reports whether the index page is fresh for the current local date.
/// A `true` result guarantees the page carries an update marker; the
/// date compared against comes from the clock, so freshness itself is
/// checked exactly by `index_is_fresh` for a given day.
pub fn index_is_fresh_today(page: &str) -> (r: bool)
    ensures
        r ==> spec_index_date(page@) is Some,
{
    let today = local_date_heading();
    index_is_fresh(page, today.as_str())
}

/// The pieces of `s` delimited by `sep`: what precedes the first
/// occurrence, then each stretch between occurrences, then what follows
/// the last.
pub open spec fn spec_pieces(s: Seq<char>, sep: Seq<char>) -> Seq<Seq<char>>
    decreases s.len() via spec_pieces_dec
{
    let i = first_match(s, sep);
    if sep.len() == 0 || i < 0 {
        seq![s]
    } else {
        seq![s.subrange(0, i)] + spec_pieces(s.subrange(i + sep.len() as int, s.len() as int), sep)
    }
}

#[via_fn]
proof fn spec_pieces_dec(s: Seq<char>, sep: Seq<char>) {
    lemma_first_match_from(s, sep, 0);
}

/// The pieces of `s` after the first occurrence of `sep`: the item cells
/// of the delimited region, the leading stretch discarded.
pub open spec fn spec_items(s: Seq<char>, sep: Seq<char>) -> Seq<Seq<char>> {
    let i = first_match(s, sep);
    if sep.len() == 0 || i < 0 {
        Seq::empty()
    } else {
        spec_pieces(s.subrange(i + sep.len() as int, s.len() as int), sep)
    }
}

/// Splits `s` on `sep` and returns the pieces after the first occurrence.
fn split_items(s: &str, sep: &str) -> (r: Vec<String>)
    requires
        sep@.len() >= 1,
    ensures
        r@.map_values(|p: String| p@) == spec_items(s@, sep@),
{
    let sv = chars_of(s);
    let pv = chars_of(sep);
    let mut out: Vec<String> = Vec::new();
    proof {
        lemma_first_match_from(sv@, pv@, 0);
    }
    let start = match crate::text::find_from(&sv, &pv, 0) {
        None => {
            return out;
        },
        Some(i) => i,
    };
    let sv_len = sv.len();
    let mut cur = sub_chars(&sv, start + pv.len(), sv_len);
    let mut done = false;
    proof {
        assert(out@.map_values(|p: String| p@) + spec_pieces(cur@, pv@) =~= spec_items(s@, sep@));
    }
    while !done
        invariant
            pv@ == sep@,
            pv@.len() >= 1,
            !done ==> out@.map_values(|p: String| p@) + spec_pieces(cur@, pv@) == spec_items(
                s@,
                sep@,
            ),
            done ==> out@.map_values(|p: String| p@) == spec_items(s@, sep@),
        decreases cur@.len() + 1, (if done { 0int } else { 1int }),
    {
        let ghost out0 = out@;
        proof {
            lemma_first_match_from(cur@, pv@, 0);
        }
        match crate::text::find_from(&cur, &pv, 0) {
            None => {
                out.push(string_of(&cur));
                proof {
                    assert(out@.map_values(|p: String| p@) =~= out0.map_values(
                        |p: String| p@,
                    ).push(cur@));
                    assert(out0.map_values(|p: String| p@) + spec_pieces(cur@, pv@)
                        =~= out@.map_values(|p: String| p@));
                }
                done = true;
            },
            Some(i) => {
                let piece = sub_chars(&cur, 0, i);
                out.push(string_of(&piece));
                let cur_len = cur.len();
                let next = sub_chars(&cur, i + pv.len(), cur_len);
                proof {
                    let ghost cur0 = cur@;
                    assert(spec_pieces(cur0, pv@) == seq![cur0.subrange(0, i as int)]
                        + spec_pieces(next@, pv@));
                    assert(out@.map_values(|p: String| p@) =~= out0.map_values(
                        |p: String| p@,
                    ).push(cur0.subrange(0, i as int)));
                    assert(out@.map_values(|p: String| p@) + spec_pieces(next@, pv@)
                        =~= out0.map_values(|p: String| p@) + spec_pieces(cur0, pv@));
                }
                cur = next;
            },
        }
    }
    out
}

/// A candidate entry listed on the index page: the article's URL and its
/// markup-stripped title.
pub struct CandidateEntry {
    pub url: String,
    pub title: String,
}

/// The entry an item cell yields: its `href` target and, between the
/// first `>` and the next `<`, its title with markup stripped. A cell
/// missing either delimiter yields nothing and is skipped.
pub open spec fn spec_entry(item: Seq<char>) -> Option<(Seq<char>, Seq<char>)> {
    match spec_look_between(item, href_marker(), "\""@) {
        None => None,
        Some(url) => match spec_look_between(item, ">"@, "<"@) {
            None => None,
            Some(t) => Some((url, spec_strip(t))),
        },
    }
}

/// Extracts the URL and stripped title of one item cell.
fn extract_entry(item: &str) -> (r: Option<CandidateEntry>)
    ensures
        r matches Some(e) ==> spec_entry(item@) == Some((e.url@, e.title@)),
        r is None ==> spec_entry(item@) is None,
{
    match look_between(item, "href=\"", "\"") {
        None => None,
        Some(url) => match look_between(item, ">", "<") {
            None => None,
            Some(t) => {
                let title = strip_markup(t.as_str());
                Some(CandidateEntry { url, title })
            },
        },
    }
}

/// The entries of the item cells `items[i..]`, cells without both
/// delimiters skipped.
pub open spec fn spec_entries_from(items: Seq<Seq<char>>, i: int) -> Seq<(Seq<char>, Seq<char>)>
    recommends
        0 <= i <= items.len(),
    decreases items.len() - i when 0 <= i <= items.len()
{
    if i >= items.len() {
        Seq::empty()
    } else {
        match spec_entry(items[i]) {
            None => spec_entries_from(items, i + 1),
            Some(e) => seq![e] + spec_entries_from(items, i + 1),
        }
    }
}

/// The candidate entries of the whole index page: the item region is the
/// text between the first two occurrences of the heading marker; it is
/// split into cells on the item marker, and each cell with both
/// delimiters yields an entry. A page without the delimited region
/// yields none.
pub open spec fn spec_candidates(page: Seq<char>) -> Seq<(Seq<char>, Seq<char>)> {
    match spec_look_between(page, heading_marker(), heading_marker()) {
        None => Seq::empty(),
        Some(section) => spec_entries_from(spec_items(section, item_marker()), 0),
    }
}

/// Extracts the candidate entries listed on the index page.
pub fn candidate_entries(page: &str) -> (r: Vec<CandidateEntry>)
    ensures
        r@.map_values(|e: CandidateEntry| (e.url@, e.title@)) == spec_candidates(page@),
{
    let mut out: Vec<CandidateEntry> = Vec::new();
    let section = match look_between(
        page,
        "<tr><td colspan=\"2\"><h1>",
        "<tr><td colspan=\"2\"><h1>",
    ) {
        None => {
            proof {
                assert(out@.map_values(|e: CandidateEntry| (e.url@, e.title@)) =~= spec_candidates(
                    page@,
                ));
            }
            return out;
        },
        Some(section) => section,
    };
    proof {
        reveal_strlit("<td width=\"50%\">");
    }
    let items = split_items(section.as_str(), "<td width=\"50%\">");
    let ghost iv = items@.map_values(|p: String| p@);
    let mut i: usize = 0;
    proof {
        assert(out@.map_values(|e: CandidateEntry| (e.url@, e.title@)) + spec_entries_from(iv, 0)
            =~= spec_entries_from(iv, 0));
    }
    while i < items.len()
        invariant
            0 <= i <= items@.len(),
            iv == items@.map_values(|p: String| p@),
            out@.map_values(|e: CandidateEntry| (e.url@, e.title@)) + spec_entries_from(
                iv,
                i as int,
            ) == spec_entries_from(iv, 0),
        decreases items@.len() - i,
    {
        let ghost out0 = out@;
        match extract_entry(items[i].as_str()) {
            None => {},
            Some(e) => {
                out.push(e);
                proof {
                    assert(out@.map_values(|e: CandidateEntry| (e.url@, e.title@)) =~= out0
                        .map_values(|e: CandidateEntry| (e.url@, e.title@)).push(
                        spec_entry(iv[i as int])->Some_0,
                    ));
                    assert(out@.map_values(|e: CandidateEntry| (e.url@, e.title@))
                        + spec_entries_from(iv, i as int + 1) =~= out0.map_values(
                        |e: CandidateEntry| (e.url@, e.title@),
                    ) + spec_entries_from(iv, i as int));
                }
            },
        }
        i = i + 1;
    }
    proof {
        assert(out@.map_values(|e: CandidateEntry| (e.url@, e.title@)) + spec_entries_from(
            iv,
            i as int,
        ) =~= out@.map_values(|e: CandidateEntry| (e.url@, e.title@)));
    }
    out
}

/// The marker before an article body on a detail page.
pub open spec fn body_marker() -> Seq<char> {
    "<meta property=\"og:description\" content=\""@
}

/// Extracts the article body a detail page advertises, the text between
/// its description marker and the next `>`.
pub fn detail_body(page: &str) -> (r: Option<String>)
    ensures
        r matches Some(b) ==> spec_look_between(page@, body_marker(), ">"@) == Some(b@),
        r is None ==> spec_look_between(page@, body_marker(), ">"@) is None,
{
    look_between(page, "<meta property=\"og:description\" content=\"", ">")
}

/// Reports whether a candidate URL belongs to the source's own site, so
/// that its body can be read from the detail page directly rather than
/// through the external extraction helper.
pub fn is_native_url(url: &str) -> (r: bool)
    ensures
        r == contains_seq(url@, "antiwar.com"@),
{
    let u = chars_of(url);
    let p = chars_of("antiwar.com");
    contains_chars(&u, &p)
}

} // verus!
