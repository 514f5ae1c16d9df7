//! Markup stripping: removes `<...>` tag spans from fetched text, leaving
//! readable text, and never panics on malformed input (an unclosed tag is
//! passed through unchanged).

use vstd::prelude::*;
use crate::text::{chars_of, find_char_from, first_char_from, lemma_first_char_from, string_of};

verus! {

/// `s` with each span from a `<` through the next `>` removed; a `<` with
/// no later `>` is kept, with all that follows it, as best-effort
/// passthrough of malformed markup. `i` is the scan position.
pub open spec fn spec_strip_from(s: Seq<char>, i: int) -> Seq<char>
    recommends
        0 <= i <= s.len(),
    decreases s.len() - i when 0 <= i <= s.len() via spec_strip_from_dec
{
    if i >= s.len() {
        Seq::empty()
    } else if s[i] == '<' {
        let j = first_char_from(s, '>', i);
        if j < 0 {
            s.subrange(i, s.len() as int)
        } else {
            spec_strip_from(s, j + 1)
        }
    } else {
        seq![s[i]] + spec_strip_from(s, i + 1)
    }
}

#[via_fn]
proof fn spec_strip_from_dec(s: Seq<char>, i: int) {
    if 0 <= i < s.len() {
        lemma_first_char_from(s, '>', i);
    }
}

/// `s` with every markup tag removed.
pub open spec fn spec_strip(s: Seq<char>) -> Seq<char> {
    spec_strip_from(s, 0)
}

/// Text free of markup: no `>` ever follows a `<`, so a fresh scan removes
/// nothing.
pub open spec fn no_tag(s: Seq<char>) -> bool {
    forall|i: int, j: int| 0 <= i < j < s.len() && s[i] == '<' ==> s[j] != '>'
}

/// Stripping always yields markup-free text.
pub proof fn lemma_strip_no_tag(s: Seq<char>, i: int)
    requires
        0 <= i <= s.len(),
    ensures
        no_tag(spec_strip_from(s, i)),
    decreases s.len() - i,
{
    if i >= s.len() {
    } else if s[i] == '<' {
        lemma_first_char_from(s, '>', i);
        let j = first_char_from(s, '>', i);
        if j < 0 {
            let r = s.subrange(i, s.len() as int);
            assert forall|a: int, b: int| 0 <= a < b < r.len() && r[a] == '<' implies r[b] != '>' by {
                assert(r[b] == s[i + b]);
            }
        } else {
            lemma_strip_no_tag(s, j + 1);
        }
    } else {
        lemma_strip_no_tag(s, i + 1);
        let rest = spec_strip_from(s, i + 1);
        let r = seq![s[i]] + rest;
        assert forall|a: int, b: int| 0 <= a < b < r.len() && r[a] == '<' implies r[b] != '>' by {
            assert(r[b] == rest[b - 1]);
            if a > 0 {
                assert(r[a] == rest[a - 1]);
            } else {
                assert(r[0] == s[i]);
                assert(s[i] != '<');
            }
        }
    }
}

/// Stripping leaves markup-free text unchanged.
pub proof fn lemma_strip_fixed(s: Seq<char>, i: int)
    requires
        0 <= i <= s.len(),
        no_tag(s),
    ensures
        spec_strip_from(s, i) == s.subrange(i, s.len() as int),
    decreases s.len() - i,
{
    if i >= s.len() {
        assert(spec_strip_from(s, i) =~= s.subrange(i, s.len() as int));
    } else if s[i] == '<' {
        lemma_first_char_from(s, '>', i);
        let j = first_char_from(s, '>', i);
        if j >= 0 {
            assert(s[j] == '>');
            assert(i < j);
            assert(false);
        }
    } else {
        lemma_strip_fixed(s, i + 1);
        assert(seq![s[i]] + s.subrange(i + 1, s.len() as int) =~= s.subrange(i, s.len() as int));
    }
}

/// Stripping markup is idempotent: a second pass over already-stripped
/// text changes nothing.
pub proof fn lemma_strip_idempotent(s: Seq<char>)
    ensures
        spec_strip(spec_strip(s)) == spec_strip(s),
{
    lemma_strip_no_tag(s, 0);
    let r = spec_strip(s);
    lemma_strip_fixed(r, 0);
    assert(r.subrange(0, r.len() as int) =~= r);
}

/// Strips every markup tag from `text`.
pub fn strip_markup(text: &str) -> (r: String)
    ensures
        r@ == spec_strip(text@),
        no_tag(r@),
        spec_strip(r@) == r@,
{
    proof {
        lemma_strip_no_tag(text@, 0);
        lemma_strip_fixed(spec_strip(text@), 0);
        assert(spec_strip(text@).subrange(0, spec_strip(text@).len() as int) =~= spec_strip(
            text@,
        ));
    }
    let t = chars_of(text);
    let t_len = t.len();
    let mut out: Vec<char> = Vec::new();
    let mut i: usize = 0;
    while i < t_len
        invariant
            0 <= i <= t_len,
            t@ == text@,
            t@.len() == t_len,
            spec_strip(text@) == out@ + spec_strip_from(t@, i as int),
        decreases t_len - i,
    {
        if t[i] == '<' {
            proof {
                lemma_first_char_from(t@, '>', i as int);
            }
            match find_char_from(&t, '>', i) {
                Some(j) => {
                    i = j + 1;
                },
                None => {
                    let ghost out0 = out@;
                    crate::text::append_range(&mut out, &t, i, t_len);
                    proof {
                        assert(out@ + spec_strip_from(t@, t_len as int) =~= out0
                            + spec_strip_from(t@, i as int));
                    }
                    i = t_len;
                },
            }
        } else {
            let ghost out0 = out@;
            out.push(t[i]);
            proof {
                assert(out@ + spec_strip_from(t@, i as int + 1) =~= out0 + spec_strip_from(
                    t@,
                    i as int,
                ));
            }
            i = i + 1;
        }
    }
    proof {
        assert(out@ + spec_strip_from(t@, t_len as int) =~= out@);
    }
    string_of(&out)
}

} // verus!
