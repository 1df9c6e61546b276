//! "What can I watch?" preferences: the selected streaming services per
//! region, their comma-separated storage form, and the list-request URLs
//! that carry them.

use vstd::prelude::*;
use crate::text::{
    all_digits, chars_of, decimal, int_text, is_digit, is_ws, lemma_decimal_reads_back,
    lemma_int_text_parses, parse_i32, parse_i32_spec, parse_int, push_char, push_i64, push_str,
    split_chars, split_seq, str_eq, trim_chars, trim_end_seq, trim_seq, trim_start_seq, views,
};

verus! {

/// Whether a region code is Brazil (every other code means the US).
pub open spec fn is_br(region: Seq<char>) -> bool {
    region == "BR"@
}

/// Comma-separated decimal ids (`join(",")` of their `to_string`).
pub open spec fn csv_of(ids: Seq<i32>) -> Seq<char>
    decreases ids.len(),
{
    if ids.len() == 0 {
        Seq::empty()
    } else if ids.len() == 1 {
        int_text(ids[0] as int)
    } else {
        csv_of(ids.drop_last()) + seq![','] + int_text(ids.last() as int)
    }
}

/// The ids read from comma-separated pieces: each piece is trimmed and
/// parsed, and pieces that are not an `i32` are skipped.
pub open spec fn ids_of_pieces(pieces: Seq<Seq<char>>) -> Seq<i32>
    decreases pieces.len(),
{
    if pieces.len() == 0 {
        Seq::empty()
    } else {
        let prev = ids_of_pieces(pieces.drop_last());
        match parse_i32_spec(trim_seq(pieces.last())) {
            Some(v) => prev.push(v as i32),
            None => prev,
        }
    }
}

/// The ids stored in a comma-separated string.
pub open spec fn ids_of_csv(s: Seq<char>) -> Seq<i32> {
    ids_of_pieces(split_seq(s, ','))
}

/// Reads comma-separated provider ids, skipping anything unparseable.
pub fn parse_ids_csv(s: &str) -> (r: Vec<i32>)
    ensures
        r@ == ids_of_csv(s@),
{
    let cs = chars_of(s);
    let pieces = split_chars(cs.as_slice(), ',');
    let ghost ps = split_seq(s@, ',');
    let mut out: Vec<i32> = Vec::new();
    let mut i: usize = 0;
    while i < pieces.len()
        invariant
            views(pieces@) == ps,
            i <= pieces@.len(),
            out@ == ids_of_pieces(ps.subrange(0, i as int)),
        decreases pieces.len() - i,
    {
        let t = trim_chars(pieces[i].as_slice());
        assert(pieces@[i as int]@ == ps[i as int]);
        let ghost next = ps.subrange(0, i + 1);
        assert(next.drop_last() == ps.subrange(0, i as int));
        assert(next.last() == ps[i as int]);
        match parse_i32(t.as_slice()) {
            Some(v) => {
                out.push(v);
            },
            None => {},
        }
        i = i + 1;
    }
    assert(ps.subrange(0, pieces@.len() as int) == ps);
    out
}

/// Comma-separated decimal ids.
pub fn ids_to_csv(ids: &[i32]) -> (r: String)
    ensures
        r@ == csv_of(ids@),
{
    let mut r = String::new();
    let mut i: usize = 0;
    while i < ids.len()
        invariant
            i <= ids@.len(),
            r@ == csv_of(ids@.subrange(0, i as int)),
        decreases ids.len() - i,
    {
        let ghost next = ids@.subrange(0, i + 1);
        assert(next.drop_last() == ids@.subrange(0, i as int));
        if i > 0 {
            push_char(&mut r, ',');
        }
        push_i64(&mut r, ids[i] as i64);
        i = i + 1;
        if i == 1 {
            assert(r@ == csv_of(next));
        }
    }
    assert(ids@.subrange(0, ids@.len() as int) == ids@);
    r
}

// ─────────────────────────── the CSV round trip ───────────────────────────

proof fn lemma_split_no_sep(b: Seq<char>, sep: char)
    requires
        !b.contains(sep),
    ensures
        split_seq(b, sep) == seq![b],
    decreases b.len(),
{
    if b.len() > 0 {
        let p = b.drop_last();
        assert(!p.contains(sep)) by {
            if p.contains(sep) {
                let i = choose|i: int| 0 <= i < p.len() && p[i] == sep;
                assert(b[i] == sep);
            }
        }
        lemma_split_no_sep(p, sep);
        assert(b.last() != sep);
        assert(p.push(b.last()) =~= b);
        assert(seq![p].update(0, p.push(b.last())) =~= seq![b]);
    } else {
        assert(b =~= Seq::<char>::empty());
    }
}

proof fn lemma_split_append(a: Seq<char>, b: Seq<char>, sep: char)
    requires
        !b.contains(sep),
    ensures
        split_seq(a + seq![sep] + b, sep) == split_seq(a, sep).push(b),
    decreases b.len(),
{
    let s = a + seq![sep] + b;
    if b.len() == 0 {
        assert(s.drop_last() =~= a);
        assert(b =~= Seq::<char>::empty());
    } else {
        let p = b.drop_last();
        assert(!p.contains(sep)) by {
            if p.contains(sep) {
                let i = choose|i: int| 0 <= i < p.len() && p[i] == sep;
                assert(b[i] == sep);
            }
        }
        lemma_split_append(a, p, sep);
        assert(s.drop_last() =~= a + seq![sep] + p);
        assert(s.last() == b.last());
        assert(b.last() != sep);
        let prev = split_seq(a, sep).push(p);
        assert(p.push(b.last()) =~= b);
        assert(prev.update(prev.len() - 1, prev.last().push(b.last())) =~= split_seq(a, sep).push(
            b,
        ));
    }
}

proof fn lemma_int_text_shape(n: int)
    ensures
        int_text(n).len() >= 1,
        !int_text(n).contains(','),
        !is_ws(int_text(n)[0]),
        !is_ws(int_text(n).last()),
{
    let m: nat = if n < 0 {
        (-n) as nat
    } else {
        n as nat
    };
    lemma_decimal_reads_back(m);
    let d = decimal(m);
    let s = int_text(n);
    assert(is_digit(d.last()));
    assert(s.last() == d.last());
    assert(!s.contains(',')) by {
        if s.contains(',') {
            let i = choose|i: int| 0 <= i < s.len() && s[i] == ',';
            if n < 0 {
                if i > 0 {
                    assert(s[i] == d[i - 1]);
                    assert(is_digit(d[i - 1]));
                }
            } else {
                assert(is_digit(d[i]));
            }
        }
    }
    if n >= 0 {
        assert(is_digit(d[0]));
    }
}

proof fn lemma_trim_int_text(n: int)
    ensures
        trim_seq(int_text(n)) == int_text(n),
{
    lemma_int_text_shape(n);
    let s = int_text(n);
    assert(trim_start_seq(s) == s);
    assert(trim_end_seq(s) == s);
}

proof fn lemma_split_csv(ids: Seq<i32>)
    requires
        ids.len() >= 1,
    ensures
        split_seq(csv_of(ids), ',') == Seq::new(ids.len(), |i: int| int_text(ids[i] as int)),
    decreases ids.len(),
{
    let want = Seq::new(ids.len(), |i: int| int_text(ids[i] as int));
    lemma_int_text_shape(ids.last() as int);
    if ids.len() == 1 {
        lemma_split_no_sep(int_text(ids[0] as int), ',');
        assert(want =~= seq![int_text(ids[0] as int)]);
    } else {
        let p = ids.drop_last();
        lemma_split_csv(p);
        lemma_split_append(csv_of(p), int_text(ids.last() as int), ',');
        let prev = Seq::new(p.len(), |i: int| int_text(p[i] as int));
        assert(prev.push(int_text(ids.last() as int)) =~= want);
    }
}

proof fn lemma_ids_of_texts(ids: Seq<i32>)
    ensures
        ids_of_pieces(Seq::new(ids.len(), |i: int| int_text(ids[i] as int))) == ids,
    decreases ids.len(),
{
    let pieces = Seq::new(ids.len(), |i: int| int_text(ids[i] as int));
    if ids.len() > 0 {
        let p = ids.drop_last();
        lemma_ids_of_texts(p);
        assert(pieces.drop_last() =~= Seq::new(p.len(), |i: int| int_text(p[i] as int)));
        lemma_trim_int_text(ids.last() as int);
        lemma_int_text_parses(ids.last() as int);
        assert(pieces.last() == int_text(ids.last() as int));
        assert(p.push(ids.last()) =~= ids);
    } else {
        assert(ids =~= Seq::<i32>::empty());
    }
}

/// Writing provider ids as comma-separated text and reading them back gives
/// the same ids in the same order.
pub proof fn lemma_csv_round_trip(ids: Seq<i32>)
    ensures
        ids_of_csv(csv_of(ids)) == ids,
{
    if ids.len() == 0 {
        assert(split_seq(Seq::<char>::empty(), ',') == seq![Seq::<char>::empty()]);
        let pieces = seq![Seq::<char>::empty()];
        assert(pieces.drop_last() =~= Seq::<Seq<char>>::empty());
        assert(trim_start_seq(Seq::<char>::empty()) == Seq::<char>::empty());
        assert(trim_end_seq(Seq::<char>::empty()) == Seq::<char>::empty());
        assert(parse_int(Seq::<char>::empty()) is None);
        assert(trim_seq(pieces.last()) == Seq::<char>::empty());
        assert(ids_of_pieces(pieces.drop_last()) == Seq::<i32>::empty());
        assert(ids_of_pieces(pieces) == Seq::<i32>::empty());
        assert(csv_of(ids) == Seq::<char>::empty());
        assert(ids =~= Seq::<i32>::empty());
    } else {
        lemma_split_csv(ids);
        lemma_ids_of_texts(ids);
    }
}

// ─────────────────────────── preferences ───────────────────────────

/// Position of the first `x` in `s`.
pub open spec fn first_pos(s: Seq<i32>, x: i32) -> int {
    choose|i: int| 0 <= i < s.len() && s[i] == x && forall|k: int| 0 <= k < i ==> s[k] != x
}

/// The selection after toggling `id`: its first occurrence removed when
/// present, otherwise appended.
pub open spec fn toggled(s: Seq<i32>, id: i32) -> Seq<i32> {
    if s.contains(id) {
        s.remove(first_pos(s, id))
    } else {
        s.push(id)
    }
}

proof fn lemma_first_pos(s: Seq<i32>, x: i32, i: int)
    requires
        0 <= i < s.len(),
        s[i] == x,
        forall|k: int| 0 <= k < i ==> s[k] != x,
    ensures
        first_pos(s, x) == i,
{
    let j = first_pos(s, x);
    assert(0 <= j < s.len() && s[j] == x && forall|k: int| 0 <= k < j ==> s[k] != x);
    if j < i {
        assert(s[j] != x);
    }
    if i < j {
        assert(s[i] != x);
    }
}

/// Anonymous viewing preferences: the active region (`"US"` or `"BR"`),
/// the TMDB provider ids chosen in each region, and whether rentals count.
#[derive(Clone, Debug)]
pub struct WatchPrefs {
    pub region: String,
    pub providers_us: Vec<i32>,
    pub providers_br: Vec<i32>,
    pub rentals: bool,
}

impl WatchPrefs {
    /// Provider ids chosen for the active region.
    pub open spec fn selected_ids(&self) -> Seq<i32> {
        if is_br(self.region@) {
            self.providers_br@
        } else {
            self.providers_us@
        }
    }

    /// Provider ids selected for the active region.
    pub fn selected(&self) -> (r: &Vec<i32>)
        ensures
            r@ == self.selected_ids(),
    {
        if str_eq(self.region.as_str(), "BR") {
            &self.providers_br
        } else {
            &self.providers_us
        }
    }

    /// Comma-separated selected ids for the active region.
    pub fn selected_csv(&self) -> (r: String)
        ensures
            r@ == csv_of(self.selected_ids()),
    {
        ids_to_csv(self.selected().as_slice())
    }

    /// Whether a filter applies: a service selected or rentals included.
    pub fn active(&self) -> (r: bool)
        ensures
            r == (self.selected_ids().len() > 0 || self.rentals),
    {
        self.selected().len() > 0 || self.rentals
    }

    /// Toggles a provider id in the active region's selection.
    pub fn toggle(&mut self, provider_id: i32)
        ensures
            final(self).region == old(self).region,
            final(self).rentals == old(self).rentals,
            final(self).selected_ids() == toggled(old(self).selected_ids(), provider_id),
            is_br(old(self).region@) ==> final(self).providers_us == old(self).providers_us,
            !is_br(old(self).region@) ==> final(self).providers_br == old(self).providers_br,
    {
        let br = str_eq(self.region.as_str(), "BR");
        if br {
            toggle_in(&mut self.providers_br, provider_id);
        } else {
            toggle_in(&mut self.providers_us, provider_id);
        }
    }

    /// Clears the active region's selection and the rentals switch.
    pub fn clear(&mut self)
        ensures
            final(self).region == old(self).region,
            final(self).rentals == false,
            final(self).selected_ids() == Seq::<i32>::empty(),
            is_br(old(self).region@) ==> final(self).providers_us == old(self).providers_us,
            !is_br(old(self).region@) ==> final(self).providers_br == old(self).providers_br,
    {
        let br = str_eq(self.region.as_str(), "BR");
        if br {
            self.providers_br = Vec::new();
        } else {
            self.providers_us = Vec::new();
        }
        self.rentals = false;
    }
}

fn toggle_in(list: &mut Vec<i32>, id: i32)
    ensures
        final(list)@ == toggled(old(list)@, id),
{
    let mut i: usize = 0;
    while i < list.len()
        invariant
            list@ == old(list)@,
            i <= list@.len(),
            forall|k: int| 0 <= k < i ==> list@[k] != id,
        decreases list.len() - i,
    {
        if list[i] == id {
            proof {
                lemma_first_pos(list@, id, i as int);
            }
            list.remove(i);
            return;
        }
        i = i + 1;
    }
    assert(!list@.contains(id));
    list.push(id);
}

/// With no repeated ids, toggling keeps the selection free of repeats and
/// flips exactly whether `id` is selected; toggling twice restores the set.
pub proof fn lemma_toggle_flips(s: Seq<i32>, id: i32)
    requires
        s.no_duplicates(),
    ensures
        toggled(s, id).no_duplicates(),
        toggled(s, id).contains(id) == !s.contains(id),
        forall|x: i32| x != id ==> (toggled(s, id).contains(x) == s.contains(x)),
        toggled(toggled(s, id), id).to_set() == s.to_set(),
{
    let t = toggled(s, id);
    if s.contains(id) {
        let p = first_pos(s, id);
        assert(0 <= p < s.len() && s[p] == id);
        assert(t == s.remove(p));
        assert forall|x: i32| x != id implies (t.contains(x) == s.contains(x)) by {
            if s.contains(x) {
                let i = choose|i: int| 0 <= i < s.len() && s[i] == x;
                if i < p {
                    assert(t[i] == x);
                } else {
                    assert(i != p);
                    assert(t[i - 1] == x);
                }
            }
        }
        assert(!t.contains(id)) by {
            if t.contains(id) {
                let i = choose|i: int| 0 <= i < t.len() && t[i] == id;
                if i < p {
                    assert(s[i] == id);
                } else {
                    assert(s[i + 1] == id);
                }
            }
        }
        assert(t.no_duplicates()) by {
            assert forall|i: int, j: int| 0 <= i < t.len() && 0 <= j < t.len() && i != j implies t[i]
                != t[j] by {
                let si = if i < p {
                    i
                } else {
                    i + 1
                };
                let sj = if j < p {
                    j
                } else {
                    j + 1
                };
                assert(t[i] == s[si]);
                assert(t[j] == s[sj]);
            }
        }
        let tt = toggled(t, id);
        assert(tt == t.push(id));
        assert(tt.to_set() =~= s.to_set()) by {
            assert forall|x: i32| tt.to_set().contains(x) == s.to_set().contains(x) by {
                if x == id {
                    assert(tt[tt.len() - 1] == id);
                } else {
                    if t.contains(x) {
                        let i = choose|i: int| 0 <= i < t.len() && t[i] == x;
                        assert(tt[i] == x);
                    }
                    if tt.contains(x) {
                        let i = choose|i: int| 0 <= i < tt.len() && tt[i] == x;
                        assert(t[i] == x);
                    }
                }
            }
        }
    } else {
        assert(t == s.push(id));
        assert(t[s.len() as int] == id);
        assert forall|x: i32| x != id implies (t.contains(x) == s.contains(x)) by {
            if s.contains(x) {
                let i = choose|i: int| 0 <= i < s.len() && s[i] == x;
                assert(t[i] == x);
            }
            if t.contains(x) {
                let i = choose|i: int| 0 <= i < t.len() && t[i] == x;
                assert(s[i] == x);
            }
        }
        assert(t.no_duplicates());
        assert(t.contains(id));
        let p = first_pos(t, id);
        assert(0 <= p < t.len() && t[p] == id);
        assert(p == s.len()) by {
            if p < s.len() {
                assert(s[p] == id);
            }
        }
        let tt = toggled(t, id);
        assert(tt == t.remove(p));
        assert(tt =~= s);
    }
}

/// `"BR"` or `"US"`.
pub fn region_code(br: bool) -> (r: String)
    ensures
        r@ == (if br {
            "BR"@
        } else {
            "US"@
        }),
{
    let mut r = String::new();
    if br {
        push_str(&mut r, "BR");
    } else {
        push_str(&mut r, "US");
    }
    assert(Seq::<char>::empty() + "BR"@ =~= "BR"@);
    assert(Seq::<char>::empty() + "US"@ =~= "US"@);
    r
}

/// Region code stored for the preferences: `"BR"` stays, anything else is `"US"`.
pub open spec fn normalized_region(stored: Seq<char>) -> Seq<char> {
    if is_br(stored) {
        "BR"@
    } else {
        "US"@
    }
}

/// Rebuilds preferences from their stored text form: the region (the
/// default applies when none was stored), the two comma-separated id lists,
/// and the rentals flag (`"1"` means on).
pub fn prefs_from_stored(
    stored_region: Option<String>,
    default_region: &str,
    us_csv: Option<String>,
    br_csv: Option<String>,
    rentals: Option<String>,
) -> (p: WatchPrefs)
    ensures
        p.region@ == normalized_region(
            match stored_region {
                Some(r) => r@,
                None => default_region@,
            },
        ),
        p.providers_us@ == match us_csv {
            Some(s) => ids_of_csv(s@),
            None => Seq::<i32>::empty(),
        },
        p.providers_br@ == match br_csv {
            Some(s) => ids_of_csv(s@),
            None => Seq::<i32>::empty(),
        },
        p.rentals == match rentals {
            Some(s) => s@ == "1"@,
            None => false,
        },
{
    let br = match &stored_region {
        Some(r) => str_eq(r.as_str(), "BR"),
        None => str_eq(default_region, "BR"),
    };
    let region = region_code(br);
    let providers_us = match &us_csv {
        Some(s) => parse_ids_csv(s.as_str()),
        None => Vec::new(),
    };
    let providers_br = match &br_csv {
        Some(s) => parse_ids_csv(s.as_str()),
        None => Vec::new(),
    };
    let rentals_on = match &rentals {
        Some(s) => str_eq(s.as_str(), "1"),
        None => false,
    };
    WatchPrefs { region, providers_us, providers_br, rentals: rentals_on }
}

/// Storage form of one id list: the same comma-separated text that
/// `prefs_from_stored` reads back.
pub fn stored_ids(ids: &Vec<i32>) -> (r: String)
    ensures
        r@ == csv_of(ids@),
{
    ids_to_csv(ids.as_slice())
}

// ─────────────────────────── request URLs ───────────────────────────

/// The active watch filter of a list request: region, comma-separated
/// provider ids, and whether rentals are included.
#[derive(Clone, Debug)]
pub struct WatchQuery {
    pub region: String,
    pub providers: String,
    pub rentals: bool,
}

impl Default for WatchQuery {
    fn default() -> (r: Self)
        ensures
            r.region@ == Seq::<char>::empty(),
            r.providers@ == Seq::<char>::empty(),
            !r.rentals,
    {
        WatchQuery { region: String::new(), providers: String::new(), rentals: false }
    }
}

/// The query parameters a watch filter adds to a list URL: nothing when no
/// provider is chosen and rentals are off.
pub open spec fn watch_params(watch: Option<WatchQuery>) -> Seq<char> {
    match watch {
        Some(w) => if w.providers@.len() > 0 || w.rentals {
            "&region="@ + w.region@ + (if w.providers@.len() > 0 {
                "&providers="@ + w.providers@
            } else {
                Seq::empty()
            }) + (if w.rentals {
                "&rentals=1"@
            } else {
                Seq::empty()
            })
        } else {
            Seq::empty()
        },
        None => Seq::empty(),
    }
}

/// Appends the watch-filter query parameters to a list URL when a filter is active.
pub fn append_watch(url: &mut String, watch: &Option<WatchQuery>)
    ensures
        final(url)@ == old(url)@ + watch_params(*watch),
{
    match watch {
        Some(w) => {
            let has_providers = w.providers.as_str().unicode_len() > 0;
            if has_providers || w.rentals {
                push_str(url, "&region=");
                push_str(url, w.region.as_str());
                if has_providers {
                    push_str(url, "&providers=");
                    push_str(url, w.providers.as_str());
                }
                if w.rentals {
                    push_str(url, "&rentals=1");
                }
                assert(url@ =~= old(url)@ + watch_params(*watch));
            } else {
                assert(url@ =~= old(url)@ + watch_params(*watch));
            }
        },
        None => {
            assert(url@ =~= old(url)@ + watch_params(*watch));
        },
    }
}

/// The watch filter for a list request, `None` when nothing is active.
pub fn watch_query(w: &WatchPrefs) -> (r: Option<WatchQuery>)
    ensures
        match r {
            Some(q) => {
                &&& w.selected_ids().len() > 0 || w.rentals
                &&& q.region@ == w.region@
                &&& q.providers@ == csv_of(w.selected_ids())
                &&& q.rentals == w.rentals
            },
            None => !(w.selected_ids().len() > 0 || w.rentals),
        },
{
    if w.active() {
        Some(WatchQuery { region: w.region.clone(), providers: w.selected_csv(), rentals: w.rentals })
    } else {
        None
    }
}

/// The text an optional parameter contributes: `&name=value`, or nothing.
pub open spec fn opt_param(name: Seq<char>, value: Option<Seq<char>>) -> Seq<char> {
    match value {
        Some(v) => name + v,
        None => Seq::empty(),
    }
}

/// Views of an optional string.
pub open spec fn opt_view(v: Option<String>) -> Option<Seq<char>> {
    match v {
        Some(s) => Some(s@),
        None => None,
    }
}

/// Views of an optional number as decimal text.
pub open spec fn opt_num(v: Option<i32>) -> Option<Seq<char>> {
    match v {
        Some(n) => Some(int_text(n as int)),
        None => None,
    }
}

fn push_opt_str(url: &mut String, name: &str, value: &Option<String>)
    ensures
        final(url)@ == old(url)@ + opt_param(name@, opt_view(*value)),
{
    match value {
        Some(v) => {
            push_str(url, name);
            push_str(url, v.as_str());
            assert(url@ =~= old(url)@ + opt_param(name@, opt_view(*value)));
        },
        None => {
            assert(url@ =~= old(url)@ + opt_param(name@, opt_view(*value)));
        },
    }
}

fn push_opt_num(url: &mut String, name: &str, value: &Option<i32>)
    ensures
        final(url)@ == old(url)@ + opt_param(name@, opt_num(*value)),
{
    match value {
        Some(v) => {
            push_str(url, name);
            push_i64(url, *v as i64);
            assert(url@ =~= old(url)@ + opt_param(name@, opt_num(*value)));
        },
        None => {
            assert(url@ =~= old(url)@ + opt_param(name@, opt_num(*value)));
        },
    }
}

/// The browser URL of a list page: path, page number, then the optional
/// genre, era and search parameters, then the sort key and direction.
pub open spec fn page_url(
    path: Seq<char>,
    page: i32,
    genres: Option<Seq<char>>,
    year: Option<i32>,
    q: Option<Seq<char>>,
    sort: Seq<char>,
    sort_dir: Seq<char>,
) -> Seq<char> {
    path + "?page="@ + int_text(page as int) + opt_param("&genres="@, genres) + opt_param(
        "&year="@,
        opt_num(year),
    ) + opt_param("&q="@, q) + "&sort="@ + sort + "&sort_dir="@ + sort_dir
}

/// Builds the browser URL of a list page.
pub fn build_url(
    path: &str,
    page: i32,
    genres: &Option<String>,
    year: &Option<i32>,
    q: &Option<String>,
    sort: &str,
    sort_dir: &str,
) -> (r: String)
    ensures
        r@ == page_url(path@, page, opt_view(*genres), *year, opt_view(*q), sort@, sort_dir@),
{
    let mut url = String::new();
    push_str(&mut url, path);
    push_str(&mut url, "?page=");
    push_i64(&mut url, page as i64);
    push_opt_str(&mut url, "&genres=", genres);
    push_opt_num(&mut url, "&year=", year);
    push_opt_str(&mut url, "&q=", q);
    push_str(&mut url, "&sort=");
    push_str(&mut url, sort);
    push_str(&mut url, "&sort_dir=");
    push_str(&mut url, sort_dir);
    assert(url@ =~= page_url(
        path@,
        page,
        opt_view(*genres),
        *year,
        opt_view(*q),
        sort@,
        sort_dir@,
    ));
    url
}

/// The API URL of a list request (`/api/gems`, `/api/acclaimed`,
/// `/api/wildcards`): page and page size, the optional filters and sort,
/// then the watch filter.
pub open spec fn list_request_url(
    base: Seq<char>,
    endpoint: Seq<char>,
    page: i32,
    per_page: i32,
    min_year: Option<i32>,
    genre: Option<Seq<char>>,
    q: Option<Seq<char>>,
    sort: Option<Seq<char>>,
    sort_dir: Option<Seq<char>>,
    watch: Option<WatchQuery>,
) -> Seq<char> {
    base + endpoint + "?page="@ + int_text(page as int) + "&per_page="@ + int_text(per_page as int)
        + opt_param("&min_year="@, opt_num(min_year)) + opt_param("&genres="@, genre) + opt_param(
        "&q="@,
        q,
    ) + opt_param("&sort="@, sort) + opt_param("&sort_dir="@, sort_dir) + watch_params(watch)
}

/// Builds the API URL of a list request.
pub fn list_url(
    base: &str,
    endpoint: &str,
    page: i32,
    per_page: i32,
    min_year: &Option<i32>,
    genre: &Option<String>,
    q: &Option<String>,
    sort: &Option<String>,
    sort_dir: &Option<String>,
    watch: &Option<WatchQuery>,
) -> (r: String)
    ensures
        r@ == list_request_url(
            base@,
            endpoint@,
            page,
            per_page,
            *min_year,
            opt_view(*genre),
            opt_view(*q),
            opt_view(*sort),
            opt_view(*sort_dir),
            *watch,
        ),
{
    let mut url = String::new();
    push_str(&mut url, base);
    push_str(&mut url, endpoint);
    push_str(&mut url, "?page=");
    push_i64(&mut url, page as i64);
    push_str(&mut url, "&per_page=");
    push_i64(&mut url, per_page as i64);
    push_opt_num(&mut url, "&min_year=", min_year);
    push_opt_str(&mut url, "&genres=", genre);
    push_opt_str(&mut url, "&q=", q);
    push_opt_str(&mut url, "&sort=", sort);
    push_opt_str(&mut url, "&sort_dir=", sort_dir);
    append_watch(&mut url, watch);
    assert(url@ =~= list_request_url(
        base@,
        endpoint@,
        page,
        per_page,
        *min_year,
        opt_view(*genre),
        opt_view(*q),
        opt_view(*sort),
        opt_view(*sort_dir),
        *watch,
    ));
    url
}

// ─────────────────────────── saved selections ───────────────────────────

/// A signed-in user's chosen providers, split by region.
#[derive(Clone, Debug)]
pub struct UserProviders {
    pub us: Vec<i32>,
    pub br: Vec<i32>,
}

/// Ids of the rows whose region is (`want_br`) or is not Brazil, in order.
pub open spec fn ids_in_region(rows: Seq<(Seq<char>, i32)>, want_br: bool) -> Seq<i32>
    decreases rows.len(),
{
    if rows.len() == 0 {
        Seq::empty()
    } else {
        let prev = ids_in_region(rows.drop_last(), want_br);
        if is_br(rows.last().0) == want_br {
            prev.push(rows.last().1)
        } else {
            prev
        }
    }
}

/// Views of stored `(region, provider_id)` rows.
pub open spec fn row_views(rows: Seq<(String, i32)>) -> Seq<(Seq<char>, i32)> {
    Seq::new(rows.len(), |i: int| (rows[i].0@, rows[i].1))
}

/// Splits stored `(region, provider_id)` rows into the Brazil list and the
/// US list (every other region), keeping their order.
pub fn group_user_providers(rows: &Vec<(String, i32)>) -> (p: UserProviders)
    ensures
        p.us@ == ids_in_region(row_views(rows@), false),
        p.br@ == ids_in_region(row_views(rows@), true),
{
    let ghost rv = row_views(rows@);
    let mut us: Vec<i32> = Vec::new();
    let mut br: Vec<i32> = Vec::new();
    let mut i: usize = 0;
    while i < rows.len()
        invariant
            rv == row_views(rows@),
            i <= rows@.len(),
            us@ == ids_in_region(rv.subrange(0, i as int), false),
            br@ == ids_in_region(rv.subrange(0, i as int), true),
        decreases rows.len() - i,
    {
        let ghost next = rv.subrange(0, i + 1);
        assert(next.drop_last() == rv.subrange(0, i as int));
        assert(next.last() == (rows@[i as int].0@, rows@[i as int].1));
        let row = &rows[i];
        if str_eq(row.0.as_str(), "BR") {
            br.push(row.1);
        } else {
            us.push(row.1);
        }
        i = i + 1;
    }
    assert(rv.subrange(0, rows@.len() as int) == rv);
    UserProviders { us, br }
}

/// The rows a replacement selection is stored as: every US id with region
/// `"US"`, then every Brazil id with region `"BR"`.
pub fn provider_rows(sel: &UserProviders) -> (rows: Vec<(String, i32)>)
    ensures
        row_views(rows@) == Seq::new(sel.us@.len(), |i: int| ("US"@, sel.us@[i])) + Seq::new(
            sel.br@.len(),
            |i: int| ("BR"@, sel.br@[i]),
        ),
{
    let ghost want = Seq::new(sel.us@.len(), |i: int| ("US"@, sel.us@[i])) + Seq::new(
        sel.br@.len(),
        |i: int| ("BR"@, sel.br@[i]),
    );
    let mut rows: Vec<(String, i32)> = Vec::new();
    let mut i: usize = 0;
    while i < sel.us.len()
        invariant
            i <= sel.us@.len(),
            rows@.len() == i,
            row_views(rows@) == Seq::new(i as nat, |k: int| ("US"@, sel.us@[k])),
        decreases sel.us.len() - i,
    {
        let region = region_code(false);
        let ghost before = rows@;
        rows.push((region, sel.us[i]));
        assert forall|k: int| 0 <= k < i implies #[trigger] row_views(rows@)[k] == row_views(
            before,
        )[k] by {
            assert(rows@[k] == before[k]);
        }
        i = i + 1;
        assert(row_views(rows@) =~= Seq::new(i as nat, |k: int| ("US"@, sel.us@[k])));
    }
    let mut j: usize = 0;
    while j < sel.br.len()
        invariant
            j <= sel.br@.len(),
            rows@.len() == sel.us@.len() + j,
            row_views(rows@) == Seq::new(sel.us@.len(), |k: int| ("US"@, sel.us@[k])) + Seq::new(
                j as nat,
                |k: int| ("BR"@, sel.br@[k]),
            ),
        decreases sel.br.len() - j,
    {
        let region = region_code(true);
        let ghost before = rows@;
        rows.push((region, sel.br[j]));
        assert forall|k: int| 0 <= k < before.len() implies #[trigger] row_views(rows@)[k]
            == row_views(before)[k] by {
            assert(rows@[k] == before[k]);
        }
        j = j + 1;
        assert(row_views(rows@) =~= Seq::new(sel.us@.len(), |k: int| ("US"@, sel.us@[k]))
            + Seq::new(j as nat, |k: int| ("BR"@, sel.br@[k])));
    }
    rows
}

proof fn lemma_ids_in_region_prefix(rows: Seq<(Seq<char>, i32)>, want_br: bool, k: int)
    requires
        0 <= k <= rows.len(),
        forall|i: int| k <= i < rows.len() ==> is_br(#[trigger] rows[i].0) != want_br,
    ensures
        ids_in_region(rows, want_br) == ids_in_region(rows.subrange(0, k), want_br),
    decreases rows.len() - k,
{
    if k < rows.len() {
        lemma_ids_in_region_prefix(rows.drop_last(), want_br, k);
        assert(rows.drop_last().subrange(0, k) == rows.subrange(0, k));
        assert(is_br(rows[rows.len() - 1].0) != want_br);
    } else {
        assert(rows.subrange(0, k) == rows);
    }
}

proof fn lemma_ids_all_region(ids: Seq<i32>, region: Seq<char>, want_br: bool)
    requires
        is_br(region) == want_br,
    ensures
        ids_in_region(Seq::new(ids.len(), |i: int| (region, ids[i])), want_br) == ids,
    decreases ids.len(),
{
    let rows = Seq::new(ids.len(), |i: int| (region, ids[i]));
    if ids.len() > 0 {
        let p = ids.drop_last();
        lemma_ids_all_region(p, region, want_br);
        assert(rows.drop_last() =~= Seq::new(p.len(), |i: int| (region, p[i])));
        assert(p.push(ids.last()) =~= ids);
    } else {
        assert(ids =~= Seq::<i32>::empty());
    }
}

proof fn lemma_ids_none_region(ids: Seq<i32>, region: Seq<char>, want_br: bool)
    requires
        is_br(region) != want_br,
    ensures
        ids_in_region(Seq::new(ids.len(), |i: int| (region, ids[i])), want_br) == Seq::<
            i32,
        >::empty(),
    decreases ids.len(),
{
    if ids.len() > 0 {
        let p = ids.drop_last();
        lemma_ids_none_region(p, region, want_br);
        assert(Seq::new(ids.len(), |i: int| (region, ids[i])).drop_last() =~= Seq::new(
            p.len(),
            |i: int| (region, p[i]),
        ));
    }
}

proof fn lemma_ids_concat(a: Seq<(Seq<char>, i32)>, b: Seq<(Seq<char>, i32)>, want_br: bool)
    ensures
        ids_in_region(a + b, want_br) == ids_in_region(a, want_br) + ids_in_region(b, want_br),
    decreases b.len(),
{
    if b.len() > 0 {
        lemma_ids_concat(a, b.drop_last(), want_br);
        assert((a + b).drop_last() =~= a + b.drop_last());
        assert((a + b).last() == b.last());
    } else {
        assert(a + b =~= a);
        assert(ids_in_region(b, want_br) =~= Seq::<i32>::empty());
    }
}

/// Storing a selection as rows and grouping the rows again gives back the
/// same US and Brazil lists.
pub proof fn lemma_provider_rows_round_trip(us: Seq<i32>, br: Seq<i32>)
    ensures
        ({
            let rows = Seq::new(us.len(), |i: int| ("US"@, us[i])) + Seq::new(
                br.len(),
                |i: int| ("BR"@, br[i]),
            );
            ids_in_region(rows, false) == us && ids_in_region(rows, true) == br
        }),
{
    reveal_strlit("US");
    reveal_strlit("BR");
    assert("US"@ != "BR"@) by {
        assert("US"@[0] != "BR"@[0]);
    }
    let a = Seq::new(us.len(), |i: int| ("US"@, us[i]));
    let b = Seq::new(br.len(), |i: int| ("BR"@, br[i]));
    lemma_ids_concat(a, b, false);
    lemma_ids_concat(a, b, true);
    lemma_ids_all_region(us, "US"@, false);
    lemma_ids_all_region(br, "BR"@, true);
    lemma_ids_none_region(us, "US"@, true);
    lemma_ids_none_region(br, "BR"@, false);
    assert(us + Seq::<i32>::empty() =~= us);
    assert(Seq::<i32>::empty() + br =~= br);
}

/// Whether a watchlist rating is acceptable: absent, or from 1 to 10.
pub fn rating_accepted(rating: Option<i32>) -> (r: bool)
    ensures
        r == (match rating {
            Some(v) => 1 <= v <= 10,
            None => true,
        }),
{
    match rating {
        Some(v) => 1 <= v && v <= 10,
        None => true,
    }
}

/// Where a film stands on a user's watchlist.
#[derive(Clone, Copy, Debug, PartialEq, Eq, Structural)]
pub enum WatchState {
    WantToWatch,
    Watched,
    NotInterested,
}

/// The stored name of a watchlist state.
pub open spec fn watch_state_text(s: WatchState) -> Seq<char> {
    match s {
        WatchState::WantToWatch => "want_to_watch"@,
        WatchState::Watched => "watched"@,
        WatchState::NotInterested => "not_interested"@,
    }
}

impl WatchState {
    /// The stored name: `want_to_watch`, `watched` or `not_interested`.
    pub fn as_str(&self) -> (r: &'static str)
        ensures
            r@ == watch_state_text(*self),
    {
        match self {
            WatchState::WantToWatch => "want_to_watch",
            WatchState::Watched => "watched",
            WatchState::NotInterested => "not_interested",
        }
    }
}

/// The state a stored name stands for; none for any other text.
pub fn watch_state_from(s: &str) -> (r: Option<WatchState>)
    ensures
        match r {
            Some(w) => watch_state_text(w) == s@,
            None => forall|w: WatchState| watch_state_text(w) != s@,
        },
{
    if str_eq(s, "want_to_watch") {
        Some(WatchState::WantToWatch)
    } else if str_eq(s, "watched") {
        Some(WatchState::Watched)
    } else if str_eq(s, "not_interested") {
        Some(WatchState::NotInterested)
    } else {
        None
    }
}

/// Reading a stored state name back gives the state.
pub proof fn lemma_watch_state_round_trip(w: WatchState)
    ensures
        forall|v: WatchState| watch_state_text(v) == watch_state_text(w) ==> v == w,
{
    reveal_strlit("want_to_watch");
    reveal_strlit("watched");
    reveal_strlit("not_interested");
    assert("want_to_watch"@ != "watched"@) by {
        assert("want_to_watch"@.len() != "watched"@.len());
    }
    assert("want_to_watch"@ != "not_interested"@) by {
        assert("want_to_watch"@[0] != "not_interested"@[0]);
    }
    assert("watched"@ != "not_interested"@) by {
        assert("watched"@[0] != "not_interested"@[0]);
    }
}

/// The era filter reaches the list endpoint under the name it reads,
/// `min_year`: a list URL with a minimum year `y` is the URL without it
/// with `&min_year=` and the decimal text of `y` put right after the page
/// and page-size parameters; and every list URL starts with the base, the
/// endpoint, `?page=` and the page number, then `&per_page=` and the page
/// size.
pub proof fn lemma_list_url_min_year(
    base: Seq<char>,
    endpoint: Seq<char>,
    page: i32,
    per_page: i32,
    y: i32,
    genre: Option<Seq<char>>,
    q: Option<Seq<char>>,
    sort: Option<Seq<char>>,
    sort_dir: Option<Seq<char>>,
    watch: Option<WatchQuery>,
)
    ensures
        ({
            let head = base + endpoint + "?page="@ + int_text(page as int) + "&per_page="@ + int_text(
                per_page as int,
            );
            let without = list_request_url(
                base,
                endpoint,
                page,
                per_page,
                None,
                genre,
                q,
                sort,
                sort_dir,
                watch,
            );
            let with = list_request_url(
                base,
                endpoint,
                page,
                per_page,
                Some(y),
                genre,
                q,
                sort,
                sort_dir,
                watch,
            );
            &&& crate::text::has_prefix(without, head)
            &&& with == head + "&min_year="@ + int_text(y as int) + without.subrange(
                head.len() as int,
                without.len() as int,
            )
        }),
{
    let head = base + endpoint + "?page="@ + int_text(page as int) + "&per_page="@ + int_text(
        per_page as int,
    );
    let rest = opt_param("&genres="@, genre) + opt_param("&q="@, q) + opt_param("&sort="@, sort)
        + opt_param("&sort_dir="@, sort_dir) + watch_params(watch);
    let without = list_request_url(base, endpoint, page, per_page, None, genre, q, sort, sort_dir, watch);
    let with = list_request_url(base, endpoint, page, per_page, Some(y), genre, q, sort, sort_dir, watch);
    assert(without =~= head + rest);
    assert(without.subrange(0, head.len() as int) =~= head);
    assert(without.subrange(head.len() as int, without.len() as int) =~= rest);
    assert(with =~= head + "&min_year="@ + int_text(y as int) + rest);
}

} // verus!
