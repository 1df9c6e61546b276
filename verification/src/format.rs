//! Display formatting: thousands separators, release days, changelog lines,
//! the readable part of a session token, and optional notes.

use vstd::prelude::*;
use vstd::utf8::encode_utf8;
use crate::text::{
    chars_of, decimal, first_index, find_char, i64_to_string, lemma_decimal_reads_back,
    occurs_at, parse_u32, parse_u32_spec, parse_usize, parse_usize_spec, push_char, push_chars,
    push_decimal, push_str, slice_chars, split_chars, split_seq, strip_commas, trim_chars,
    trim_seq, trim_start_chars, trim_start_seq, views, all_digits,
};

verus! {

// ─────────────────────────── thousands ───────────────────────────

/// Digits grouped in threes from the right, groups separated by `,`.
pub open spec fn group_thousands(s: Seq<char>) -> Seq<char>
    decreases s.len(),
{
    if s.len() <= 3 {
        s
    } else {
        group_thousands(s.subrange(0, s.len() - 3)) + ","@ + s.subrange(s.len() - 3, s.len() as int)
    }
}

/// A number with thousands separators, `-` first when negative.
pub open spec fn thousands_spec(n: int) -> Seq<char> {
    if n < 0 {
        "-"@ + group_thousands(decimal((-n) as nat))
    } else {
        group_thousands(decimal(n as nat))
    }
}

fn push_grouped(out: &mut String, ds: &[char], end: usize)
    requires
        end <= ds@.len(),
    ensures
        final(out)@ == old(out)@ + group_thousands(ds@.subrange(0, end as int)),
    decreases end,
{
    let ghost s = ds@.subrange(0, end as int);
    if end <= 3 {
        let head = slice_chars(ds, 0, end);
        push_chars(out, head.as_slice());
    } else {
        push_grouped(out, ds, end - 3);
        push_char(out, ',');
        let tail = slice_chars(ds, end - 3, end);
        push_chars(out, tail.as_slice());
        assert(s.subrange(0, s.len() - 3) == ds@.subrange(0, end - 3));
        assert(s.subrange(s.len() - 3, s.len() as int) == ds@.subrange(end - 3, end as int));
        proof {
            reveal_strlit(",");
        }
        assert(group_thousands(s) == group_thousands(ds@.subrange(0, end - 3)) + ","@
            + ds@.subrange(end - 3, end as int));
    }
}

/// Formats a number with thousands separators, such as `1,234,567`.
pub fn fmt_thousands(n: i64) -> (r: String)
    requires
        n != i64::MIN,
    ensures
        r@ == thousands_spec(n as int),
{
    let a: i64 = if n < 0 {
        -n
    } else {
        n
    };
    let digits = i64_to_string(a);
    let ds = chars_of(digits.as_str());
    assert(ds@ == decimal(a as nat));
    let mut out = String::new();
    if n < 0 {
        push_char(&mut out, '-');
    }
    push_grouped(&mut out, ds.as_slice(), ds.len());
    assert(ds@.subrange(0, ds@.len() as int) == ds@);
    proof {
        reveal_strlit("-");
        if n < 0 {
            assert(out@ == seq!['-'] + group_thousands(ds@));
        } else {
            assert(out@ == Seq::<char>::empty() + group_thousands(ds@));
        }
    }
    out
}

proof fn lemma_strip_concat(a: Seq<char>, b: Seq<char>)
    ensures
        strip_commas(a + b) == strip_commas(a) + strip_commas(b),
    decreases b.len(),
{
    if b.len() > 0 {
        assert((a + b).drop_last() == a + b.drop_last());
        lemma_strip_concat(a, b.drop_last());
    } else {
        assert(a + b == a);
    }
}

proof fn lemma_strip_digits(s: Seq<char>)
    requires
        all_digits(s),
    ensures
        strip_commas(s) == s,
    decreases s.len(),
{
    if s.len() > 0 {
        assert(crate::text::is_digit(s.last()));
        assert(all_digits(s.drop_last()));
        lemma_strip_digits(s.drop_last());
    }
}

/// Removing the separators from a grouped number gives its digits back.
pub proof fn lemma_thousands_digits(s: Seq<char>)
    requires
        all_digits(s),
    ensures
        strip_commas(group_thousands(s)) == s,
    decreases s.len(),
{
    if s.len() > 3 {
        let head = s.subrange(0, s.len() - 3);
        let tail = s.subrange(s.len() - 3, s.len() as int);
        assert(all_digits(head));
        assert(all_digits(tail));
        lemma_thousands_digits(head);
        reveal_strlit(",");
        lemma_strip_concat(group_thousands(head) + ","@, tail);
        lemma_strip_concat(group_thousands(head), ","@);
        lemma_strip_digits(tail);
        assert(strip_commas(","@) == Seq::<char>::empty()) by {
            assert(","@.len() == 1 && ","@[0] == ',');
            assert(","@.drop_last() == Seq::<char>::empty());
            assert(strip_commas(Seq::<char>::empty()) == Seq::<char>::empty());
        }
        assert(head + tail == s);
    } else {
        lemma_strip_digits(s);
    }
}

/// Every number's separators stand between groups of three: the formatted
/// number without its `,`s is its plain decimal notation.
pub proof fn lemma_thousands_plain(n: int)
    ensures
        strip_commas(thousands_spec(n)) == crate::text::int_text(n),
{
    let d = if n < 0 {
        decimal((-n) as nat)
    } else {
        decimal(n as nat)
    };
    lemma_decimal_reads_back(if n < 0 {
        (-n) as nat
    } else {
        n as nat
    });
    lemma_thousands_digits(d);
    if n < 0 {
        reveal_strlit("-");
        lemma_strip_concat("-"@, group_thousands(d));
        assert(strip_commas("-"@) == "-"@) by {
            assert("-"@.len() == 1 && "-"@[0] == '-');
            assert("-"@.drop_last() == Seq::<char>::empty());
            assert(strip_commas(Seq::<char>::empty()) == Seq::<char>::empty());
            assert(Seq::<char>::empty().push('-') == "-"@);
        }
        assert("-"@ == seq!['-']);
    }
}

// ─────────────────────────── release days ───────────────────────────

/// The three-letter English name of month `m` (1 to 12).
pub open spec fn month_abbrev(m: int) -> Seq<char> {
    if m == 1 {
        "Jan"@
    } else if m == 2 {
        "Feb"@
    } else if m == 3 {
        "Mar"@
    } else if m == 4 {
        "Apr"@
    } else if m == 5 {
        "May"@
    } else if m == 6 {
        "Jun"@
    } else if m == 7 {
        "Jul"@
    } else if m == 8 {
        "Aug"@
    } else if m == 9 {
        "Sep"@
    } else if m == 10 {
        "Oct"@
    } else if m == 11 {
        "Nov"@
    } else {
        "Dec"@
    }
}

fn month_name(m: usize) -> (r: &'static str)
    requires
        1 <= m <= 12,
    ensures
        r@ == month_abbrev(m as int),
{
    if m == 1 {
        "Jan"
    } else if m == 2 {
        "Feb"
    } else if m == 3 {
        "Mar"
    } else if m == 4 {
        "Apr"
    } else if m == 5 {
        "May"
    } else if m == 6 {
        "Jun"
    } else if m == 7 {
        "Jul"
    } else if m == 8 {
        "Aug"
    } else if m == 9 {
        "Sep"
    } else if m == 10 {
        "Oct"
    } else if m == 11 {
        "Nov"
    } else {
        "Dec"
    }
}

/// Day and month of a `year-month-day` date, such as `10 Mar` for
/// `1994-03-10`: absent unless the second and third `-`-separated fields
/// read as a month from 1 to 12 and a day number.
pub open spec fn release_day_spec(d: Seq<char>) -> Option<Seq<char>> {
    let parts = split_seq(d, '-');
    if parts.len() < 3 {
        None
    } else {
        match (parse_usize_spec(parts[1]), parse_u32_spec(parts[2])) {
            (Some(m), Some(day)) => if 1 <= m <= 12 {
                Some(decimal(day as nat) + " "@ + month_abbrev(m))
            } else {
                None
            },
            _ => None,
        }
    }
}

/// Day and month of a release date, for display next to the year.
pub fn fmt_release_day(d: &str) -> (r: Option<String>)
    ensures
        match r {
            Some(s) => release_day_spec(d@) == Some(s@),
            None => release_day_spec(d@) is None,
        },
{
    let cs = chars_of(d);
    let parts = split_chars(cs.as_slice(), '-');
    if parts.len() < 3 {
        return None;
    }
    assert(parts@[1]@ == views(parts@)[1]);
    assert(parts@[2]@ == views(parts@)[2]);
    let month = match parse_usize(parts[1].as_slice()) {
        Some(m) => m,
        None => return None,
    };
    let day = match parse_u32(parts[2].as_slice()) {
        Some(v) => v,
        None => return None,
    };
    if month < 1 || month > 12 {
        return None;
    }
    let mut out = String::new();
    push_decimal(&mut out, day as u64);
    push_str(&mut out, " ");
    push_str(&mut out, month_name(month));
    assert(out@ == Seq::<char>::empty() + decimal(day as nat) + " "@ + month_abbrev(month as int));
    Some(out)
}

// ─────────────────────────── changelog ───────────────────────────

/// The last position below `k` where `pat` occurs in `s`.
pub open spec fn last_occurrence_below(s: Seq<char>, pat: Seq<char>, k: int) -> Option<int>
    decreases k,
{
    if k <= 0 {
        None
    } else if occurs_at(s, pat, k - 1) {
        Some(k - 1)
    } else {
        last_occurrence_below(s, pat, k - 1)
    }
}

/// The last position where `pat` occurs in `s` (`str::rfind`).
pub open spec fn last_occurrence(s: Seq<char>, pat: Seq<char>) -> Option<int> {
    last_occurrence_below(s, pat, s.len() as int)
}

fn rfind_pattern(s: &[char], pat: &[char]) -> (r: Option<usize>)
    ensures
        match r {
            Some(i) => last_occurrence(s@, pat@) == Some(i as int) && i <= s@.len(),
            None => last_occurrence(s@, pat@) is None,
        },
{
    let mut k: usize = s.len();
    while k > 0
        invariant
            k <= s@.len(),
            last_occurrence(s@, pat@) == last_occurrence_below(s@, pat@, k as int),
        decreases k,
    {
        if pat.len() <= s.len() - (k - 1) {
            let piece = slice_chars(s, k - 1, k - 1 + pat.len());
            if crate::text::chars_eq(piece.as_slice(), pat) {
                return Some(k - 1);
            }
        }
        k = k - 1;
    }
    None
}

/// `s` with every `**` removed, scanning left to right (`replace("**", "")`).
pub open spec fn without_bold(s: Seq<char>) -> Seq<char>
    decreases s.len(),
{
    if s.len() >= 2 && s[0] == '*' && s[1] == '*' {
        without_bold(s.subrange(2, s.len() as int))
    } else if s.len() == 0 {
        s
    } else {
        seq![s[0]] + without_bold(s.drop_first())
    }
}

/// A changelog entry for display: the trailing ` ([hash](url))` commit
/// reference cut off at its last occurrence, and the bold markers removed.
pub open spec fn clean_item_spec(s: Seq<char>) -> Seq<char> {
    let cut = match last_occurrence(s, " (["@) {
        Some(i) => s.subrange(0, i),
        None => s,
    };
    without_bold(cut)
}

/// Cleans a changelog entry for display.
pub fn changelog_clean_item(s: &str) -> (r: String)
    ensures
        r@ == clean_item_spec(s@),
{
    let cs = chars_of(s);
    let pat = chars_of(" ([");
    let cut = match rfind_pattern(cs.as_slice(), pat.as_slice()) {
        Some(i) => slice_chars(cs.as_slice(), 0, i),
        None => cs,
    };
    let ghost c = cut@;
    let mut out: Vec<char> = Vec::new();
    let mut i: usize = 0;
    assert(cut@.subrange(0, cut@.len() as int) == cut@);
    while i < cut.len()
        invariant
            i <= cut@.len(),
            without_bold(c) == out@ + without_bold(cut@.subrange(i as int, cut@.len() as int)),
            c == cut@,
        decreases cut.len() - i,
    {
        let ghost rest = cut@.subrange(i as int, cut@.len() as int);
        if i + 1 < cut.len() && cut[i] == '*' && cut[i + 1] == '*' {
            assert(rest.subrange(2, rest.len() as int) == cut@.subrange(i + 2, cut@.len() as int));
            i = i + 2;
        } else {
            assert(rest.drop_first() == cut@.subrange(i + 1, cut@.len() as int));
            out.push(cut[i]);
            assert(out@ + without_bold(cut@.subrange(i + 1, cut@.len() as int)) =~= (out@.drop_last()
                + seq![cut@[i as int]]) + without_bold(cut@.subrange(i + 1, cut@.len() as int)));
            i = i + 1;
        }
    }
    assert(out@ + Seq::<char>::empty() == out@);
    crate::text::string_of(out.as_slice())
}

/// A changelog release header for display: `[0.2.0](url) (date)` becomes
/// `v0.2.0 (date)` and `[0.1.0] - date` becomes `v0.1.0 - date`; a header
/// that does not start with `[` or has no `]` stays as it is.
pub open spec fn clean_header_spec(s: Seq<char>) -> Seq<char> {
    if !(s.len() > 0 && s[0] == '[') {
        s
    } else {
        match first_index(s, ']') {
            None => s,
            Some(close) => {
                let version = s.subrange(1, close);
                let after = s.subrange(close + 1, s.len() as int);
                let tail = if after.len() > 0 && after[0] == '(' {
                    match first_index(after, ')') {
                        Some(i) => trim_start_seq(after.subrange(i + 1, after.len() as int)),
                        None => after,
                    }
                } else {
                    trim_start_seq(after)
                };
                "v"@ + version + " "@ + tail
            },
        }
    }
}

/// Cleans a changelog release header for display.
pub fn changelog_clean_header(s: &str) -> (r: String)
    ensures
        r@ == clean_header_spec(s@),
{
    let cs = chars_of(s);
    if !(cs.len() > 0 && cs[0] == '[') {
        return s.to_string();
    }
    let close = match find_char(cs.as_slice(), ']') {
        Some(i) => i,
        None => return s.to_string(),
    };
    let version = slice_chars(cs.as_slice(), 1, close);
    let after = slice_chars(cs.as_slice(), close + 1, cs.len());
    let tail = if after.len() > 0 && after[0] == '(' {
        match find_char(after.as_slice(), ')') {
            Some(i) => {
                let rest = slice_chars(after.as_slice(), i + 1, after.len());
                trim_start_chars(rest.as_slice())
            },
            None => after,
        }
    } else {
        trim_start_chars(after.as_slice())
    };
    let mut out = String::new();
    push_str(&mut out, "v");
    push_chars(&mut out, version.as_slice());
    push_str(&mut out, " ");
    push_chars(&mut out, tail.as_slice());
    assert(out@ == Seq::<char>::empty() + "v"@ + version@ + " "@ + tail@);
    out
}

// ─────────────────────────── session token payload ───────────────────────────

/// The payload of a session token (`header.payload.signature`) rewritten
/// from the URL-safe alphabet to the standard one: `-` as `+`, `_` as `/`.
pub open spec fn standard_alphabet(s: Seq<char>) -> Seq<char> {
    Seq::new(
        s.len(),
        |i: int|
            if s[i] == '-' {
                '+'
            } else if s[i] == '_' {
                '/'
            } else {
                s[i]
            },
    )
}

/// `n` copies of `=`.
pub open spec fn padding(n: nat) -> Seq<char> {
    Seq::new(n, |i: int| '=')
}

/// The token's second `.`-separated field in the standard alphabet, padded
/// with `=` to a multiple of four bytes; absent when the token has no `.`.
pub open spec fn token_payload_spec(token: Seq<char>) -> Option<Seq<char>> {
    let parts = split_seq(token, '.');
    if parts.len() < 2 {
        None
    } else {
        let b = standard_alphabet(parts[1]);
        let pad = ((4 - encode_utf8(b).len() % 4) % 4) as nat;
        Some(b + padding(pad))
    }
}

/// The payload of a session token, ready for a standard base64 decoder.
pub fn token_payload_base64(token: &str) -> (r: Option<String>)
    ensures
        match r {
            Some(s) => token_payload_spec(token@) == Some(s@),
            None => token_payload_spec(token@) is None,
        },
{
    let cs = chars_of(token);
    let parts = split_chars(cs.as_slice(), '.');
    if parts.len() < 2 {
        return None;
    }
    assert(parts@[1]@ == views(parts@)[1]);
    let p = &parts[1];
    let mut mapped: Vec<char> = Vec::new();
    let mut i: usize = 0;
    while i < p.len()
        invariant
            i <= p@.len(),
            mapped@ == standard_alphabet(p@).subrange(0, i as int),
        decreases p.len() - i,
    {
        let c = p[i];
        if c == '-' {
            mapped.push('+');
        } else if c == '_' {
            mapped.push('/');
        } else {
            mapped.push(c);
        }
        i = i + 1;
    }
    assert(standard_alphabet(p@).subrange(0, i as int) == standard_alphabet(p@));
    let b64 = crate::text::string_of(mapped.as_slice());
    let nbytes = b64.as_str().as_bytes().len();
    let pad = (4 - nbytes % 4) % 4;
    let mut out = b64;
    let mut k: usize = 0;
    let ghost base = out@;
    while k < pad
        invariant
            k <= pad,
            out@ == base + padding(k as nat),
        decreases pad - k,
    {
        push_char(&mut out, '=');
        k = k + 1;
        assert(out@ =~= base + padding(k as nat));
    }
    Some(out)
}

// ─────────────────────────── notes ───────────────────────────

/// A note as stored: trimmed, and absent when nothing is left.
pub open spec fn trimmed_note_spec(raw: Option<Seq<char>>) -> Option<Seq<char>> {
    match raw {
        None => None,
        Some(s) => if trim_seq(s).len() == 0 {
            None
        } else {
            Some(trim_seq(s))
        },
    }
}

/// A note trimmed, and dropped when nothing is left.
pub fn trimmed_note(raw: Option<&str>) -> (r: Option<String>)
    ensures
        match r {
            Some(t) => trimmed_note_spec(
                match raw {
                    Some(s) => Some(s@),
                    None => None,
                },
            ) == Some(t@),
            None => trimmed_note_spec(
                match raw {
                    Some(s) => Some(s@),
                    None => None,
                },
            ) is None,
        },
{
    match raw {
        None => None,
        Some(s) => {
            let cs = chars_of(s);
            let t = trim_chars(cs.as_slice());
            if t.len() == 0 {
                None
            } else {
                Some(crate::text::string_of(t.as_slice()))
            }
        },
    }
}

} // verus!
