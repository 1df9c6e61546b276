//! Streaming availability: flattening a region's tiered provider lists into
//! stored rows, choosing the watch-page link to keep, and grouping a film's
//! stored rows by region for display.

use vstd::prelude::*;
use crate::text::{int_text, push_i64, push_str, str_eq};

verus! {

/// The regions whose availability is synced, in this order.
pub open spec fn supported_regions() -> Seq<Seq<char>> {
    seq!["US"@, "BR"@]
}

/// The regions whose availability is synced, in order.
pub fn regions() -> (r: Vec<&'static str>)
    ensures
        r@.len() == 2,
        r@[0]@ == "US"@,
        r@[1]@ == "BR"@,
{
    let mut v: Vec<&'static str> = Vec::new();
    v.push("US");
    v.push("BR");
    v
}

/// One service in the catalogue's answer.
#[derive(Clone, Debug)]
pub struct TmdbProvider {
    pub provider_id: i32,
    pub provider_name: String,
    pub logo_path: Option<String>,
}

/// One region of the catalogue's answer, with its services per access tier.
#[derive(Clone, Debug)]
pub struct TmdbRegionProviders {
    /// The catalogue's watch page for the region.
    pub link: Option<String>,
    /// Included in a subscription.
    pub flatrate: Vec<TmdbProvider>,
    pub free: Vec<TmdbProvider>,
    /// Free with advertisements.
    pub ads: Vec<TmdbProvider>,
    pub rent: Vec<TmdbProvider>,
    pub buy: Vec<TmdbProvider>,
}

/// A stored row: service id, name, logo path and access tier.
pub type ProviderRow = (i32, String, Option<String>, String);

/// The view of an optional string.
pub open spec fn opt_text(v: Option<String>) -> Option<Seq<char>> {
    match v {
        Some(s) => Some(s@),
        None => None,
    }
}

/// The view of a stored row.
pub open spec fn row_view(r: ProviderRow) -> (i32, Seq<char>, Option<Seq<char>>, Seq<char>) {
    (r.0, r.1@, opt_text(r.2), r.3@)
}

/// The views of stored rows.
pub open spec fn row_views(rs: Seq<ProviderRow>) -> Seq<(i32, Seq<char>, Option<Seq<char>>, Seq<char>)> {
    Seq::new(rs.len(), |i: int| row_view(rs[i]))
}

/// The rows of one tier, in the order the catalogue lists the services.
pub open spec fn tier_rows(ps: Seq<TmdbProvider>, access: Seq<char>) -> Seq<
    (i32, Seq<char>, Option<Seq<char>>, Seq<char>),
> {
    Seq::new(
        ps.len(),
        |i: int| (ps[i].provider_id, ps[i].provider_name@, opt_text(ps[i].logo_path), access),
    )
}

/// A region's rows: the subscription, free, advertising, rental and
/// purchase tiers, in that order.
pub open spec fn region_rows(r: TmdbRegionProviders) -> Seq<
    (i32, Seq<char>, Option<Seq<char>>, Seq<char>),
> {
    tier_rows(r.flatrate@, "flatrate"@) + tier_rows(r.free@, "free"@) + tier_rows(r.ads@, "ads"@)
        + tier_rows(r.rent@, "rent"@) + tier_rows(r.buy@, "buy"@)
}

fn copy_text(v: &Option<String>) -> (r: Option<String>)
    ensures
        opt_text(r) == opt_text(*v),
{
    match v {
        Some(s) => Some(s.clone()),
        None => None,
    }
}

fn push_tier(rows: &mut Vec<ProviderRow>, ps: &Vec<TmdbProvider>, access: &str)
    ensures
        row_views(final(rows)@) == row_views(old(rows)@) + tier_rows(ps@, access@),
{
    let ghost start = row_views(rows@);
    let mut i: usize = 0;
    while i < ps.len()
        invariant
            i <= ps@.len(),
            row_views(rows@) == start + tier_rows(ps@, access@).subrange(0, i as int),
        decreases ps.len() - i,
    {
        let p = &ps[i];
        let row: ProviderRow = (p.provider_id, p.provider_name.clone(), copy_text(&p.logo_path), access.to_string());
        let ghost before = rows@;
        rows.push(row);
        assert(row_views(rows@) =~= row_views(before).push(row_view(row)));
        assert(tier_rows(ps@, access@).subrange(0, i + 1) =~= tier_rows(ps@, access@).subrange(
            0,
            i as int,
        ).push(row_view(row)));
        i = i + 1;
    }
    assert(tier_rows(ps@, access@).subrange(0, i as int) == tier_rows(ps@, access@));
}

/// Flattens a region's tiers into stored rows.
pub fn build_rows(region: &TmdbRegionProviders) -> (rows: Vec<ProviderRow>)
    ensures
        row_views(rows@) == region_rows(*region),
{
    let mut rows: Vec<ProviderRow> = Vec::new();
    assert(row_views(rows@) =~= Seq::empty());
    push_tier(&mut rows, &region.flatrate, "flatrate");
    push_tier(&mut rows, &region.free, "free");
    push_tier(&mut rows, &region.ads, "ads");
    push_tier(&mut rows, &region.rent, "rent");
    push_tier(&mut rows, &region.buy, "buy");
    assert(Seq::<(i32, Seq<char>, Option<Seq<char>>, Seq<char>)>::empty() + tier_rows(
        region.flatrate@,
        "flatrate"@,
    ) == tier_rows(region.flatrate@, "flatrate"@));
    rows
}

/// The link kept for a film: the watch-page link of the first region, in
/// the synced order, whose answer has one.
pub open spec fn kept_link(regions: Seq<Option<TmdbRegionProviders>>) -> Option<Seq<char>>
    decreases regions.len(),
{
    if regions.len() == 0 {
        None
    } else {
        match regions[0] {
            Some(r) if r.link is Some => opt_text(r.link),
            _ => kept_link(regions.drop_first()),
        }
    }
}

/// The link kept for a film, from each synced region's answer (absent when
/// the catalogue has nothing for the region).
pub fn link_to_keep(regions: &Vec<Option<TmdbRegionProviders>>) -> (r: Option<String>)
    ensures
        opt_text(r) == kept_link(regions@),
{
    let mut i: usize = 0;
    assert(regions@.subrange(0, regions@.len() as int) == regions@);
    while i < regions.len()
        invariant
            i <= regions@.len(),
            kept_link(regions@) == kept_link(regions@.subrange(i as int, regions@.len() as int)),
        decreases regions.len() - i,
    {
        let ghost rest = regions@.subrange(i as int, regions@.len() as int);
        assert(rest.drop_first() == regions@.subrange(i + 1, regions@.len() as int));
        match &regions[i] {
            Some(r) => match &r.link {
                Some(l) => {
                    return Some(l.clone());
                },
                None => {},
            },
            None => {},
        }
        i = i + 1;
    }
    None
}

/// The catalogue's aggregated watch page of a film in a region.
pub open spec fn watch_page_spec(tmdb_id: int, region: Seq<char>) -> Seq<char> {
    "https://www.themoviedb.org/movie/"@ + int_text(tmdb_id) + "/watch?locale="@ + region
}

/// The catalogue's aggregated watch page of a film in a region.
pub fn watch_page_link(tmdb_id: i64, region: &str) -> (r: String)
    ensures
        r@ == watch_page_spec(tmdb_id as int, region@),
{
    let mut u = String::new();
    push_str(&mut u, "https://www.themoviedb.org/movie/");
    push_i64(&mut u, tmdb_id);
    push_str(&mut u, "/watch?locale=");
    push_str(&mut u, region);
    u
}

// ─────────────────────────── grouping for display ───────────────────────────

/// A stored service of a film, as shown.
#[derive(Clone, Debug)]
pub struct MovieProvider {
    pub provider_id: i32,
    pub provider_name: String,
    pub logo_path: Option<String>,
    pub access: String,
}

/// The view of a shown service.
pub open spec fn provider_view(p: MovieProvider) -> (i32, Seq<char>, Option<Seq<char>>, Seq<char>) {
    (p.provider_id, p.provider_name@, opt_text(p.logo_path), p.access@)
}

/// The views of shown services.
pub open spec fn provider_views(ps: Seq<MovieProvider>) -> Seq<
    (i32, Seq<char>, Option<Seq<char>>, Seq<char>),
> {
    Seq::new(ps.len(), |i: int| provider_view(ps[i]))
}

/// A film's services in one region, with the region's watch page.
#[derive(Clone, Debug)]
pub struct RegionGroup {
    pub region: String,
    pub providers: Vec<MovieProvider>,
    pub tmdb_link: Option<String>,
}

/// The regions of the rows, each once, in order of first appearance.
pub open spec fn regions_in_order(rows: Seq<(Seq<char>, MovieProvider)>) -> Seq<Seq<char>>
    decreases rows.len(),
{
    if rows.len() == 0 {
        Seq::empty()
    } else {
        let prev = regions_in_order(rows.drop_last());
        if prev.contains(rows.last().0) {
            prev
        } else {
            prev.push(rows.last().0)
        }
    }
}

/// The services of the rows in `region`, in row order.
pub open spec fn region_members(rows: Seq<(Seq<char>, MovieProvider)>, region: Seq<char>) -> Seq<
    (i32, Seq<char>, Option<Seq<char>>, Seq<char>),
>
    decreases rows.len(),
{
    if rows.len() == 0 {
        Seq::empty()
    } else if rows.last().0 == region {
        region_members(rows.drop_last(), region).push(provider_view(rows.last().1))
    } else {
        region_members(rows.drop_last(), region)
    }
}

/// Regions and services of stored rows.
pub open spec fn stored_views(rows: Seq<(String, MovieProvider)>) -> Seq<(Seq<char>, MovieProvider)> {
    Seq::new(rows.len(), |i: int| (rows[i].0@, rows[i].1))
}

/// Whether `groups` shows `rows` grouped by region: one group per region in
/// order of first appearance, each with that region's services in row order
/// and the region's watch page for the film.
pub open spec fn grouped(
    groups: Seq<RegionGroup>,
    rows: Seq<(Seq<char>, MovieProvider)>,
    tmdb_id: int,
) -> bool {
    &&& groups.len() == regions_in_order(rows).len()
    &&& forall|g: int|
        0 <= g < groups.len() ==> {
            &&& (#[trigger] groups[g]).region@ == regions_in_order(rows)[g]
            &&& provider_views(groups[g].providers@) == region_members(rows, groups[g].region@)
            &&& opt_text(groups[g].tmdb_link) == Some(watch_page_spec(tmdb_id, groups[g].region@))
        }
}

fn copy_provider(p: &MovieProvider) -> (r: MovieProvider)
    ensures
        provider_view(r) == provider_view(*p),
{
    MovieProvider {
        provider_id: p.provider_id,
        provider_name: p.provider_name.clone(),
        logo_path: copy_text(&p.logo_path),
        access: p.access.clone(),
    }
}

proof fn lemma_regions_distinct(rows: Seq<(Seq<char>, MovieProvider)>)
    ensures
        forall|a: int, b: int|
            0 <= a < b < regions_in_order(rows).len() ==> regions_in_order(rows)[a]
                != regions_in_order(rows)[b],
    decreases rows.len(),
{
    if rows.len() > 0 {
        let prev = regions_in_order(rows.drop_last());
        lemma_regions_distinct(rows.drop_last());
        if !prev.contains(rows.last().0) {
            assert forall|a: int| 0 <= a < prev.len() implies prev[a] != rows.last().0 by {
                if prev[a] == rows.last().0 {
                    assert(prev.contains(rows.last().0));
                }
            }
        }
    }
}

proof fn lemma_members_of_new_region(rows: Seq<(Seq<char>, MovieProvider)>, region: Seq<char>)
    requires
        !regions_in_order(rows).contains(region),
    ensures
        region_members(rows, region) == Seq::<(i32, Seq<char>, Option<Seq<char>>, Seq<char>)>::empty(),
    decreases rows.len(),
{
    if rows.len() > 0 {
        let prev = regions_in_order(rows.drop_last());
        if prev.contains(region) {
            let k = choose|k: int| 0 <= k < prev.len() && prev[k] == region;
            assert(regions_in_order(rows)[k] == region);
        }
        assert(!prev.contains(region));
        if rows.last().0 == region {
            assert(regions_in_order(rows).contains(region)) by {
                if prev.contains(rows.last().0) {
                } else {
                    assert(regions_in_order(rows)[prev.len() as int] == region);
                }
            }
        }
        lemma_members_of_new_region(rows.drop_last(), region);
    }
}

/// Groups a film's stored `(region, service)` rows by region.
pub fn group_by_region(rows: &Vec<(String, MovieProvider)>, tmdb_id: i64) -> (groups: Vec<RegionGroup>)
    ensures
        grouped(groups@, stored_views(rows@), tmdb_id as int),
{
    let ghost all = stored_views(rows@);
    let mut groups: Vec<RegionGroup> = Vec::new();
    let mut i: usize = 0;
    while i < rows.len()
        invariant
            i <= rows@.len(),
            all == stored_views(rows@),
            grouped(groups@, all.subrange(0, i as int), tmdb_id as int),
        decreases rows.len() - i,
    {
        let ghost pre = all.subrange(0, i as int);
        let ghost next = all.subrange(0, i + 1);
        assert(next.drop_last() == pre);
        assert(next.last() == (rows@[i as int].0@, rows@[i as int].1));
        proof {
            lemma_regions_distinct(pre);
        }
        let region = rows[i].0.as_str();
        let mut g: usize = 0;
        let mut found = false;
        while g < groups.len()
            invariant_except_break
                !found,
            invariant
                g <= groups@.len(),
                forall|k: int| 0 <= k < g ==> (#[trigger] groups@[k]).region@ != region@,
            ensures
                found ==> g < groups@.len() && groups@[g as int].region@ == region@,
                !found ==> g == groups@.len(),
            decreases groups.len() - g,
        {
            if str_eq(groups[g].region.as_str(), region) {
                found = true;
                break;
            }
            g = g + 1;
        }
        let p = copy_provider(&rows[i].1);
        if found {
            let ghost old_groups = groups@;
            let mut grp = groups.remove(g);
            grp.providers.push(p);
            groups.insert(g, grp);
            assert(pre.len() >= 0);
            assert(regions_in_order(next) == regions_in_order(pre)) by {
                assert(regions_in_order(pre)[g as int] == region@);
            }
            assert forall|k: int| 0 <= k < groups@.len() implies {
                &&& (#[trigger] groups@[k]).region@ == regions_in_order(next)[k]
                &&& provider_views(groups@[k].providers@) == region_members(next, groups@[k].region@)
                &&& opt_text(groups@[k].tmdb_link) == Some(watch_page_spec(tmdb_id as int, groups@[k].region@))
            } by {
                if k == g {
                    assert(provider_views(groups@[k].providers@) =~= provider_views(
                        old_groups[k].providers@,
                    ).push(provider_view(rows@[i as int].1)));
                } else {
                    assert(groups@[k] == old_groups[k]);
                    assert(regions_in_order(pre)[k] != regions_in_order(pre)[g as int]);
                }
            }
        } else {
            proof {
                assert(!regions_in_order(pre).contains(region@)) by {
                    if regions_in_order(pre).contains(region@) {
                        let k = choose|k: int| 0 <= k < regions_in_order(pre).len() && regions_in_order(pre)[k] == region@;
                        assert(groups@[k].region@ != region@);
                    }
                }
                lemma_members_of_new_region(pre, region@);
            }
            let mut providers: Vec<MovieProvider> = Vec::new();
            providers.push(p);
            let link = watch_page_link(tmdb_id, region);
            let ghost old_groups = groups@;
            groups.push(RegionGroup { region: region.to_string(), providers, tmdb_link: Some(link) });
            assert forall|k: int| 0 <= k < groups@.len() implies {
                &&& (#[trigger] groups@[k]).region@ == regions_in_order(next)[k]
                &&& provider_views(groups@[k].providers@) == region_members(next, groups@[k].region@)
                &&& opt_text(groups@[k].tmdb_link) == Some(watch_page_spec(tmdb_id as int, groups@[k].region@))
            } by {
                if k == old_groups.len() {
                    assert(provider_views(groups@[k].providers@) =~= Seq::<
                        (i32, Seq<char>, Option<Seq<char>>, Seq<char>),
                    >::empty().push(provider_view(rows@[i as int].1)));
                } else {
                    assert(groups@[k] == old_groups[k]);
                    assert(regions_in_order(pre)[k] != region@);
                }
            }
        }
        i = i + 1;
    }
    assert(all.subrange(0, i as int) == all);
    groups
}

/// A region's rows hold one row per service of each of its five tiers —
/// subscription, free, advertising, rental and purchase, in that order —
/// each carrying the service's id, name and logo and its tier's name; so
/// there are as many rows as services in all five tiers.
pub proof fn lemma_rows_cover_every_tier(r: TmdbRegionProviders)
    ensures
        ({
            let rows = region_rows(r);
            let a = r.flatrate@.len() as int;
            let b = a + r.free@.len();
            let c = b + r.ads@.len();
            let d = c + r.rent@.len();
            &&& rows.len() == d + r.buy@.len()
            &&& forall|i: int|
                0 <= i < r.flatrate@.len() ==> #[trigger] rows[i] == (
                    r.flatrate@[i].provider_id,
                    r.flatrate@[i].provider_name@,
                    opt_text(r.flatrate@[i].logo_path),
                    "flatrate"@,
                )
            &&& forall|i: int|
                0 <= i < r.free@.len() ==> #[trigger] rows[a + i] == (
                    r.free@[i].provider_id,
                    r.free@[i].provider_name@,
                    opt_text(r.free@[i].logo_path),
                    "free"@,
                )
            &&& forall|i: int|
                0 <= i < r.ads@.len() ==> #[trigger] rows[b + i] == (
                    r.ads@[i].provider_id,
                    r.ads@[i].provider_name@,
                    opt_text(r.ads@[i].logo_path),
                    "ads"@,
                )
            &&& forall|i: int|
                0 <= i < r.rent@.len() ==> #[trigger] rows[c + i] == (
                    r.rent@[i].provider_id,
                    r.rent@[i].provider_name@,
                    opt_text(r.rent@[i].logo_path),
                    "rent"@,
                )
            &&& forall|i: int|
                0 <= i < r.buy@.len() ==> #[trigger] rows[d + i] == (
                    r.buy@[i].provider_id,
                    r.buy@[i].provider_name@,
                    opt_text(r.buy@[i].logo_path),
                    "buy"@,
                )
        }),
{
}

} // verus!
