//! Substring search and text normalization over character sequences.

use vstd::prelude::*;

verus! {

/// True when `pat` occurs in `text` starting at index `i`.
pub open spec fn match_at(text: Seq<char>, pat: Seq<char>, i: int) -> bool {
    0 <= i && i + pat.len() <= text.len() && text.subrange(i, i + pat.len() as int) == pat
}

/// True when `pat` occurs somewhere in `text`.
pub open spec fn contains_seq(text: Seq<char>, pat: Seq<char>) -> bool {
    exists|i: int| match_at(text, pat, i)
}

/// Index of the first occurrence of `pat` in `text` at or after `from`,
/// or -1 when there is none.
pub open spec fn first_match_from(text: Seq<char>, pat: Seq<char>, from: int) -> int
    recommends
        0 <= from,
    decreases text.len() + 1 - from when 0 <= from <= text.len() + 1
{
    if from + pat.len() > text.len() {
        -1
    } else if text.subrange(from, from + pat.len() as int) == pat {
        from
    } else {
        first_match_from(text, pat, from + 1)
    }
}

/// Index of the first occurrence of `pat` in `text`, or -1.
pub open spec fn first_match(text: Seq<char>, pat: Seq<char>) -> int {
    first_match_from(text, pat, 0)
}

/// The first occurrence found by `first_match_from` is a match, is at or
/// after `from`, and nothing earlier matches; -1 means nothing matches.
pub proof fn lemma_first_match_from(text: Seq<char>, pat: Seq<char>, from: int)
    requires
        0 <= from <= text.len() + 1,
    ensures
        first_match_from(text, pat, from) == -1 || first_match_from(text, pat, from) >= from,
        first_match_from(text, pat, from) >= 0 ==> match_at(text, pat, first_match_from(text, pat, from)),
        first_match_from(text, pat, from) >= 0 ==> from <= first_match_from(text, pat, from),
        forall|j: int| from <= j < first_match_from(text, pat, from) ==> !match_at(text, pat, j),
        first_match_from(text, pat, from) == -1 ==> forall|j: int| j >= from ==> !match_at(text, pat, j),
    decreases text.len() + 1 - from,
{
    if from + pat.len() > text.len() {
        assert forall|j: int| j >= from implies !match_at(text, pat, j) by {}
    } else if text.subrange(from, from + pat.len() as int) == pat {
    } else {
        lemma_first_match_from(text, pat, from + 1);
    }
}

/// `first_match` finds an occurrence exactly when one exists.
pub proof fn lemma_first_match_contains(text: Seq<char>, pat: Seq<char>)
    ensures
        first_match(text, pat) >= 0 <==> contains_seq(text, pat),
        first_match(text, pat) >= 0 ==> match_at(text, pat, first_match(text, pat)),
{
    lemma_first_match_from(text, pat, 0);
    let fm = first_match(text, pat);
    if fm >= 0 {
        assert(match_at(text, pat, fm));
        assert(contains_seq(text, pat));
    } else {
        if contains_seq(text, pat) {
            let i = choose|i: int| match_at(text, pat, i);
            assert(i >= 0);
            assert(!match_at(text, pat, i));
            assert(false);
        }
    }
}

/// Finds the first occurrence of `pat` in `text` at or after `from`.
pub fn find_from(text: &Vec<char>, pat: &Vec<char>, from: usize) -> (r: Option<usize>)
    requires
        from <= text@.len(),
    ensures
        match r {
            Some(i) => i == first_match_from(text@, pat@, from as int),
            None => first_match_from(text@, pat@, from as int) == -1,
        },
{
    let text_len = text.len();
    let pat_len = pat.len();
    if pat_len > text_len {
        proof { lemma_first_match_from(text@, pat@, from as int); }
        return None;
    }
    if pat_len == 0 {
        proof {
            assert(text@.subrange(from as int, from as int) =~= pat@);
        }
        return Some(from);
    }
    let mut i = from;
    while i <= text_len - pat_len
        invariant
            from <= i <= text@.len() + 1,
            pat@.len() == pat_len,
            text@.len() == text_len,
            1 <= pat_len <= text_len,
            first_match_from(text@, pat@, from as int) == first_match_from(text@, pat@, i as int),
        decreases text_len - i,
    {
        let mut k: usize = 0;
        let mut matched = true;
        proof {
            assert(text@.subrange(i as int, i as int) =~= pat@.subrange(0, 0));
        }
        while k < pat_len && matched
            invariant
                0 <= k <= pat_len,
                pat@.len() == pat_len,
                text@.len() == text_len,
                i + pat_len <= text_len,
                matched ==> text@.subrange(i as int, i + k as int) == pat@.subrange(0, k as int),
                !matched ==> text@.subrange(i as int, i + pat_len as int) != pat@,
            decreases pat_len - k,
        {
            if text[i + k] != pat[k] {
                matched = false;
                proof {
                    if text@.subrange(i as int, i + pat_len as int) == pat@ {
                        assert(text@.subrange(i as int, i + pat_len as int)[k as int] == text@[i + k]);
                        assert(false);
                    }
                }
            } else {
                proof {
                    assert(text@.subrange(i as int, i + k as int + 1) =~= text@.subrange(
                        i as int,
                        i + k as int,
                    ).push(text@[i + k]));
                    assert(pat@.subrange(0, k as int + 1) =~= pat@.subrange(0, k as int).push(
                        pat@[k as int],
                    ));
                }
            }
            k = k + 1;
        }
        proof {
            if matched {
                assert(k == pat_len);
                assert(pat@.subrange(0, pat_len as int) =~= pat@);
                assert(match_at(text@, pat@, i as int));
            }
        }
        if matched {
            return Some(i);
        }
        i = i + 1;
    }
    proof { lemma_first_match_from(text@, pat@, i as int); }
    None
}

/// Reports whether `pat` occurs in `text`.
pub fn contains_chars(text: &Vec<char>, pat: &Vec<char>) -> (r: bool)
    ensures
        r == contains_seq(text@, pat@),
{
    proof { lemma_first_match_contains(text@, pat@); }
    match find_from(text, pat, 0) {
        Some(_) => true,
        None => false,
    }
}

/// Collects the characters of `s` into a vector.
pub fn chars_of(s: &str) -> (r: Vec<char>)
    ensures
        r@ == s@,
{
    let len = s.unicode_len();
    let mut r: Vec<char> = Vec::new();
    let mut i: usize = 0;
    while i < len
        invariant
            0 <= i <= len,
            len == s@.len(),
            r@ == s@.subrange(0, i as int),
        decreases len - i,
    {
        let c = s.get_char(i);
        r.push(c);
        proof {
            assert(r@ =~= s@.subrange(0, i as int + 1));
        }
        i = i + 1;
    }
    proof {
        assert(s@.subrange(0, s@.len() as int) =~= s@);
    }
    r
}

/// Index of the first occurrence of the character `c` in `s` at or after
/// `from`, or -1 when there is none.
pub open spec fn first_char_from(s: Seq<char>, c: char, from: int) -> int
    recommends
        0 <= from,
    decreases s.len() - from when 0 <= from <= s.len()
{
    if from >= s.len() {
        -1
    } else if s[from] == c {
        from
    } else {
        first_char_from(s, c, from + 1)
    }
}

/// The first occurrence found by `first_char_from` is in range, holds `c`,
/// and nothing earlier does; -1 means `c` does not occur at or after `from`.
pub proof fn lemma_first_char_from(s: Seq<char>, c: char, from: int)
    requires
        0 <= from <= s.len(),
    ensures
        first_char_from(s, c, from) == -1 || from <= first_char_from(s, c, from) < s.len(),
        first_char_from(s, c, from) >= 0 ==> s[first_char_from(s, c, from)] == c,
        forall|j: int| from <= j < first_char_from(s, c, from) ==> s[j] != c,
        first_char_from(s, c, from) == -1 ==> forall|j: int| from <= j < s.len() ==> s[j] != c,
    decreases s.len() - from,
{
    if from >= s.len() {
    } else if s[from] == c {
    } else {
        lemma_first_char_from(s, c, from + 1);
    }
}

/// Finds the first occurrence of the character `c` in `v` at or after `from`.
pub fn find_char_from(v: &Vec<char>, c: char, from: usize) -> (r: Option<usize>)
    requires
        from <= v@.len(),
    ensures
        match r {
            Some(i) => i == first_char_from(v@, c, from as int),
            None => first_char_from(v@, c, from as int) == -1,
        },
{
    let mut i = from;
    while i < v.len()
        invariant
            from <= i <= v@.len(),
            first_char_from(v@, c, from as int) == first_char_from(v@, c, i as int),
        decreases v@.len() - i,
    {
        if v[i] == c {
            return Some(i);
        }
        i = i + 1;
    }
    None
}

/// Copies the characters of `v` with indices in `from..to`.
pub fn sub_chars(v: &Vec<char>, from: usize, to: usize) -> (r: Vec<char>)
    requires
        from <= to <= v@.len(),
    ensures
        r@ == v@.subrange(from as int, to as int),
{
    let mut r: Vec<char> = Vec::new();
    let mut i = from;
    while i < to
        invariant
            from <= i <= to <= v@.len(),
            r@ == v@.subrange(from as int, i as int),
        decreases to - i,
    {
        r.push(v[i]);
        proof {
            assert(r@ =~= v@.subrange(from as int, i as int + 1));
        }
        i = i + 1;
    }
    r
}

/// Appends the characters of `v` with indices in `from..to` onto `out`.
pub fn append_range(out: &mut Vec<char>, v: &Vec<char>, from: usize, to: usize)
    requires
        from <= to <= v@.len(),
    ensures
        final(out)@ == old(out)@ + v@.subrange(from as int, to as int),
{
    proof {
        assert(out@ =~= old(out)@ + v@.subrange(from as int, from as int));
    }
    let mut i = from;
    while i < to
        invariant
            from <= i <= to <= v@.len(),
            out@ == old(out)@ + v@.subrange(from as int, i as int),
        decreases to - i,
    {
        out.push(v[i]);
        proof {
            assert(out@ =~= old(out)@ + v@.subrange(from as int, i as int + 1));
        }
        i = i + 1;
    }
    proof {
        assert(out@ =~= old(out)@ + v@.subrange(from as int, to as int));
    }
}

/// Relies on std's `String::push`: appends one character to the string.
pub assume_specification[ String::push ](s: &mut String, c: char)
    ensures
        final(s)@ == old(s)@.push(c),
;

/// Builds a string from a vector of characters.
pub fn string_of(cs: &Vec<char>) -> (r: String)
    ensures
        r@ == cs@,
{
    let mut r = String::new();
    let mut i: usize = 0;
    while i < cs.len()
        invariant
            0 <= i <= cs@.len(),
            r@ == cs@.subrange(0, i as int),
        decreases cs@.len() - i,
    {
        r.push(cs[i]);
        proof {
            assert(r@ =~= cs@.subrange(0, i as int + 1));
        }
        i = i + 1;
    }
    proof {
        assert(cs@.subrange(0, cs@.len() as int) =~= cs@);
    }
    r
}

/// The text between the first occurrence of `start` and the next occurrence
/// of `end` after it, or nothing when either delimiter is missing.
pub open spec fn spec_look_between(text: Seq<char>, start: Seq<char>, end: Seq<char>) -> Option<
    Seq<char>,
> {
    let i = first_match(text, start);
    if i < 0 {
        None
    } else {
        let rest = text.subrange(i + start.len() as int, text.len() as int);
        let j = first_match(rest, end);
        if j < 0 {
            None
        } else {
            Some(rest.subrange(0, j))
        }
    }
}

/// Extracts the text between the first occurrence of `start` and the next
/// occurrence of `end` after it.
pub fn look_between(text: &str, start: &str, end: &str) -> (r: Option<String>)
    ensures
        r matches Some(s) ==> spec_look_between(text@, start@, end@) == Some(s@),
        r is None ==> spec_look_between(text@, start@, end@) is None,
{
    let t = chars_of(text);
    let s = chars_of(start);
    let e = chars_of(end);
    match find_from(&t, &s, 0) {
        None => None,
        Some(i) => {
            proof {
                lemma_first_match_from(t@, s@, 0);
            }
            let t_len = t.len();
            let rest = sub_chars(&t, i + s.len(), t_len);
            match find_from(&rest, &e, 0) {
                None => None,
                Some(j) => {
                    proof {
                        lemma_first_match_from(rest@, e@, 0);
                    }
                    let piece = sub_chars(&rest, 0, j);
                    Some(string_of(&piece))
                },
            }
        },
    }
}

/// The first `n` characters of `s`; all of `s` when it is no longer than `n`.
pub open spec fn spec_truncate(s: Seq<char>, n: nat) -> Seq<char> {
    if s.len() <= n {
        s
    } else {
        s.subrange(0, n as int)
    }
}

/// Trims `text` to at most `n` characters, counted in characters so that no
/// multi-byte encoding is ever split.
pub fn truncate(text: &str, n: usize) -> (r: String)
    ensures
        r@ == spec_truncate(text@, n as nat),
        r@.len() <= n,
        text@.len() <= n ==> r@ == text@,
{
    let len = text.unicode_len();
    if len <= n {
        text.to_owned()
    } else {
        text.substring_char(0, n).to_owned()
    }
}

/// The prefix of a URL up to its third `/`: the scheme and host of an
/// absolute URL such as `https://host/path`. A URL with fewer than three
/// `/` characters is returned whole.
pub open spec fn spec_base_url(s: Seq<char>) -> Seq<char> {
    let p1 = first_char_from(s, '/', 0);
    if p1 < 0 {
        s
    } else {
        let p2 = first_char_from(s, '/', p1 + 1);
        if p2 < 0 {
            s
        } else {
            let p3 = first_char_from(s, '/', p2 + 1);
            if p3 < 0 {
                s
            } else {
                s.subrange(0, p3)
            }
        }
    }
}

/// Extracts the scheme-and-host prefix of a URL, the origin that the
/// politeness gate throttles on.
pub fn get_base_url(url: &str) -> (r: String)
    ensures
        r@ == spec_base_url(url@),
{
    let v = chars_of(url);
    let v_len = v.len();
    proof {
        lemma_first_char_from(v@, '/', 0);
    }
    match find_char_from(&v, '/', 0) {
        None => url.to_owned(),
        Some(p1) => {
            proof {
                lemma_first_char_from(v@, '/', p1 + 1);
            }
            match find_char_from(&v, '/', p1 + 1) {
                None => url.to_owned(),
                Some(p2) => {
                    proof {
                        lemma_first_char_from(v@, '/', p2 + 1);
                    }
                    match find_char_from(&v, '/', p2 + 1) {
                        None => url.to_owned(),
                        Some(p3) => {
                            let piece = sub_chars(&v, 0, p3);
                            string_of(&piece)
                        },
                    }
                },
            }
        },
    }
}

/// `s` with every non-overlapping occurrence of `pat` removed, scanning
/// from the left.
pub open spec fn spec_remove_all(s: Seq<char>, pat: Seq<char>) -> Seq<char>
    decreases s.len() via spec_remove_all_dec
{
    let i = first_match(s, pat);
    if pat.len() == 0 || i < 0 {
        s
    } else {
        s.subrange(0, i) + spec_remove_all(s.subrange(i + pat.len() as int, s.len() as int), pat)
    }
}

#[via_fn]
proof fn spec_remove_all_dec(s: Seq<char>, pat: Seq<char>) {
    lemma_first_match_from(s, pat, 0);
}

/// Removes every occurrence of `pat` from `text`.
pub fn remove_all(text: &str, pat: &str) -> (r: String)
    ensures
        r@ == spec_remove_all(text@, pat@),
{
    let p = chars_of(pat);
    if p.len() == 0 {
        return text.to_owned();
    }
    let mut cur = chars_of(text);
    let mut out: Vec<char> = Vec::new();
    let mut done = false;
    proof {
        assert(out@ + spec_remove_all(cur@, p@) =~= spec_remove_all(text@, pat@));
    }
    while !done
        invariant
            p@ == pat@,
            p@.len() >= 1,
            !done ==> out@ + spec_remove_all(cur@, p@) == spec_remove_all(text@, pat@),
            done ==> out@ == spec_remove_all(text@, pat@),
        decreases cur@.len() + 1, (if done { 0int } else { 1int }),
    {
        proof {
            lemma_first_match_from(cur@, p@, 0);
        }
        match find_from(&cur, &p, 0) {
            None => {
                let cur_len = cur.len();
                append_range(&mut out, &cur, 0, cur_len);
                proof {
                    assert(cur@.subrange(0, cur@.len() as int) =~= cur@);
                }
                done = true;
            },
            Some(i) => {
                let ghost out0 = out@;
                let ghost cur0 = cur@;
                append_range(&mut out, &cur, 0, i);
                let cur_len = cur.len();
                let next = sub_chars(&cur, i + p.len(), cur_len);
                proof {
                    assert(spec_remove_all(cur0, p@) == cur0.subrange(0, i as int)
                        + spec_remove_all(next@, p@));
                    assert(out@ + spec_remove_all(next@, p@) =~= out0 + spec_remove_all(cur0, p@));
                }
                cur = next;
            },
        }
    }
    string_of(&out)
}

/// Compares two string slices character by character.
pub fn str_eq(a: &str, b: &str) -> (r: bool)
    ensures
        r == (a@ == b@),
{
    let sa = a.to_owned();
    let sb = b.to_owned();
    sa == sb
}

} // verus!
