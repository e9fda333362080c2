//! Object search: match a free-text query against the named Solar System
//! bodies, tracked spacecraft, named stars and constellations, ranking
//! prefix matches ahead of substring matches.
//!
//! Positions are not this module's business: a catalog entry carries an
//! opaque position value `K` that the search hands back untouched inside
//! [`SearchKind::Fixed`], so callers choose their own coordinate type.

use vstd::prelude::*;
use vstd::string::StringExecFns;

use crate::stars::{solar_body_name_table, solar_system_body_names};
use crate::text::{
    ascii_lower, char_count, is_ascii_text, lowercase, occurs_in, same_text, text_contains, text_starts_with, to_lowercase,
    trim_text, trimmed,
};

verus! {

/// Maximum number of results surfaced in the live list. Keeps the overlay
/// compact and the per-keystroke scan bounded.
pub const MAX_RESULTS: usize = 8;

/// How a [`SearchTarget`] resolves back to a sky position.
#[derive(Debug)]
pub enum SearchKind<K> {
    /// A fixed position (stars, spacecraft, constellation centroids),
    /// snapshotted at selection time.
    Fixed(K),
    /// A Solar System body (Sun / Moon / planet), re-resolved by name
    /// from the ephemeris because it drifts across the sky.
    SolarSystem,
}

/// A selectable search result: a display `name`, the `kind` used to
/// resolve a live direction, and a short `category` label for the list.
#[derive(Debug)]
pub struct SearchTarget<K> {
    pub name: String,
    pub kind: SearchKind<K>,
    /// Short category label shown in the results list ("Star", "Planet",
    /// "Constellation", "Sun", "Moon", "Spacecraft").
    pub category: &'static str,
}

/// Mathematical content of a [`SearchTarget`].
pub struct TargetView<K> {
    pub name: Seq<char>,
    pub kind: SearchKind<K>,
    pub category: Seq<char>,
}

impl<K> View for SearchTarget<K> {
    type V = TargetView<K>;

    open spec fn view(&self) -> TargetView<K> {
        TargetView { name: self.name@, kind: self.kind, category: self.category@ }
    }
}

/// A named catalog object with its position.
#[derive(Debug)]
pub struct NamedObject<K> {
    pub name: String,
    pub coords: K,
}

/// The objects a query is matched against, besides the Solar System
/// bodies: spacecraft and stars in catalog order, and for every
/// constellation line (in line-table order) the constellation's name and
/// centroid, `None` when no centroid could be placed.
#[derive(Debug)]
pub struct ObjectCatalog<K> {
    pub spacecraft: Vec<NamedObject<K>>,
    pub stars: Vec<NamedObject<K>>,
    pub constellation_lines: Vec<NamedObject<Option<K>>>,
}

/// Rank of an already lowercased name against a lowercased query:
/// `Some(0)` for a prefix match, `Some(1)` for a substring match.
pub open spec fn rank_in(lname: Seq<char>, q: Seq<char>) -> Option<u8> {
    if q.is_prefix_of(lname) {
        Some(0u8)
    } else if occurs_in(q, lname) {
        Some(1u8)
    } else {
        None
    }
}

/// Rank of a name against a lowercased query (the name is lowercased first).
pub open spec fn rank_of(name: Seq<char>, q: Seq<char>) -> Option<u8> {
    rank_in(lowercase(name), q)
}

/// Category label of a Solar System body name.
pub open spec fn solar_category_of(name: Seq<char>) -> Seq<char> {
    if name == "Sun"@ {
        "Sun"@
    } else if name == "Moon"@ {
        "Moon"@
    } else {
        "Planet"@
    }
}

/// Scored candidates from the Solar System body names, in order.
pub open spec fn scored_bodies<K>(names: Seq<Seq<char>>, q: Seq<char>) -> Seq<(u8, TargetView<K>)>
    decreases names.len(),
{
    if names.len() == 0 {
        seq![]
    } else {
        let prev = scored_bodies::<K>(names.drop_last(), q);
        let n = names.last();
        match rank_of(n, q) {
            Some(r) => prev.push(
                (r, TargetView { name: n, kind: SearchKind::SolarSystem, category: solar_category_of(n) }),
            ),
            None => prev,
        }
    }
}

/// Scored candidates from fixed objects of one category, in order.
pub open spec fn scored_fixed<K>(objs: Seq<NamedObject<K>>, q: Seq<char>, category: Seq<char>) -> Seq<
    (u8, TargetView<K>),
>
    decreases objs.len(),
{
    if objs.len() == 0 {
        seq![]
    } else {
        let prev = scored_fixed(objs.drop_last(), q, category);
        let o = objs.last();
        match rank_of(o.name@, q) {
            Some(r) => prev.push(
                (r, TargetView { name: o.name@, kind: SearchKind::Fixed(o.coords), category }),
            ),
            None => prev,
        }
    }
}

/// Names of a sequence of objects.
pub open spec fn names_of<K>(objs: Seq<NamedObject<K>>) -> Seq<Seq<char>> {
    objs.map_values(|o: NamedObject<K>| o.name@)
}

/// Scored constellations: each constellation counts once, at its first
/// line, and only when it has a centroid.
pub open spec fn scored_constellations<K>(lines: Seq<NamedObject<Option<K>>>, q: Seq<char>) -> Seq<
    (u8, TargetView<K>),
>
    decreases lines.len(),
{
    if lines.len() == 0 {
        seq![]
    } else {
        let prev = scored_constellations(lines.drop_last(), q);
        let l = lines.last();
        if names_of(lines.drop_last()).contains(l.name@) {
            prev
        } else {
            match (rank_of(l.name@, q), l.coords) {
                (Some(r), Some(c)) => prev.push(
                    (
                        r,
                        TargetView {
                            name: l.name@,
                            kind: SearchKind::Fixed(c),
                            category: "Constellation"@,
                        },
                    ),
                ),
                _ => prev,
            }
        }
    }
}

/// All scored candidates in scan order: bodies, spacecraft, stars,
/// constellations.
pub open spec fn scored_candidates<K>(cat: &ObjectCatalog<K>, q: Seq<char>) -> Seq<
    (u8, TargetView<K>),
> {
    scored_bodies::<K>(solar_body_name_table(), q) + scored_fixed(cat.spacecraft@, q, "Spacecraft"@)
        + scored_fixed(cat.stars@, q, "Star"@) + scored_constellations(cat.constellation_lines@, q)
}

/// The targets of rank `k`, in order.
pub open spec fn with_rank<K>(s: Seq<(u8, TargetView<K>)>, k: u8) -> Seq<TargetView<K>>
    decreases s.len(),
{
    if s.len() == 0 {
        seq![]
    } else {
        let prev = with_rank(s.drop_last(), k);
        if s.last().0 == k {
            prev.push(s.last().1)
        } else {
            prev
        }
    }
}

/// What `search_objects` returns: nothing for a blank query; otherwise the
/// prefix matches, then the substring matches, each in scan order, capped
/// at [`MAX_RESULTS`].
pub open spec fn search_result<K>(query: Seq<char>, cat: &ObjectCatalog<K>) -> Seq<TargetView<K>> {
    if trimmed(query).len() == 0 {
        seq![]
    } else {
        ranked_result(lowercase(trimmed(query)), cat)
    }
}

/// Search result for an already cleaned (trimmed, lowercased) query `q`.
pub open spec fn ranked_result<K>(q: Seq<char>, cat: &ObjectCatalog<K>) -> Seq<TargetView<K>> {
    if q.len() == 0 {
        seq![]
    } else {
        let s = scored_candidates(cat, q);
        let ordered = with_rank(s, 0) + with_rank(s, 1);
        if ordered.len() > MAX_RESULTS {
            ordered.take(MAX_RESULTS as int)
        } else {
            ordered
        }
    }
}

/// Views of a sequence of targets.
pub open spec fn target_views<K>(s: Seq<SearchTarget<K>>) -> Seq<TargetView<K>> {
    s.map_values(|t: SearchTarget<K>| t@)
}

/// Views of a sequence of scored targets.
pub open spec fn scored_views<K>(s: Seq<(u8, SearchTarget<K>)>) -> Seq<(u8, TargetView<K>)> {
    s.map_values(|p: (u8, SearchTarget<K>)| (p.0, p.1@))
}

/// Rank an already lowercased name against a lowercased query.
pub fn rank_lowercased(lname: &str, query_lc: &str) -> (r: Option<u8>)
    ensures
        r == rank_in(lname@, query_lc@),
{
    if text_starts_with(lname, query_lc) {
        Some(0)
    } else if text_contains(lname, query_lc) {
        Some(1)
    } else {
        None
    }
}

/// Rank a candidate name against a lowercased query. `Some(0)` for a
/// prefix match (ranked first), `Some(1)` for a substring match, `None`
/// when it doesn't match at all.
pub fn match_rank(name: &str, query_lc: &str) -> (r: Option<u8>)
    ensures
        r == rank_of(name@, query_lc@),
        is_ascii_text(name@) ==> lowercase(name@) == name@.map_values(|c: char| ascii_lower(c)),
{
    let lname = to_lowercase(name);
    rank_lowercased(lname.as_str(), query_lc)
}

/// Short category label for a Solar System body name.
pub fn solar_category(name: &str) -> (r: &'static str)
    ensures
        r@ == solar_category_of(name@),
{
    if same_text(name, "Sun") {
        "Sun"
    } else if same_text(name, "Moon") {
        "Moon"
    } else {
        "Planet"
    }
}

fn copy_target<K: Copy>(t: &SearchTarget<K>) -> (r: SearchTarget<K>)
    ensures
        r@ == t@,
{
    let kind = match &t.kind {
        SearchKind::Fixed(k) => SearchKind::Fixed(*k),
        SearchKind::SolarSystem => SearchKind::SolarSystem,
    };
    SearchTarget { name: t.name.clone(), kind, category: t.category }
}

fn seen_contains(seen: &Vec<String>, name: &str) -> (r: bool)
    ensures
        r == seen@.map_values(|s: String| s@).contains(name@),
{
    let ghost views = seen@.map_values(|s: String| s@);
    let mut i: usize = 0;
    while i < seen.len()
        invariant
            i <= seen@.len(),
            views == seen@.map_values(|s: String| s@),
            forall|j: int| 0 <= j < i ==> views[j] != name@,
        decreases seen@.len() - i,
    {
        if same_text(seen[i].as_str(), name) {
            assert(views[i as int] == name@);
            return true;
        }
        i = i + 1;
    }
    false
}

/// Search the catalog for objects matching `query`.
///
/// Matches (case-insensitive) across named Solar System bodies, tracked
/// spacecraft, named stars, and constellation names. Prefix matches rank
/// ahead of substring matches; within a rank, ordering follows the scan
/// order (bodies, then spacecraft, then stars, then constellations) which
/// roughly tracks how interesting each hit is. Returns at most
/// [`MAX_RESULTS`] entries.
pub fn search_objects<K: Copy>(query: &str, catalog: &ObjectCatalog<K>) -> (r: Vec<SearchTarget<K>>)
    ensures
        target_views(r@) == search_result(query@, catalog),
        is_ascii_text(trimmed(query@)) ==> lowercase(trimmed(query@)) == trimmed(
            query@,
        ).map_values(|c: char| ascii_lower(c)),
{
    let trimmed_query = trim_text(query);
    let q = to_lowercase(trimmed_query.as_str());
    search_objects_lowercased(q.as_str(), catalog)
}

/// [`search_objects`] for a query that is already trimmed and lowercased.
pub fn search_objects_lowercased<K: Copy>(q: &str, catalog: &ObjectCatalog<K>) -> (r: Vec<
    SearchTarget<K>,
>)
    ensures
        target_views(r@) == ranked_result(q@, catalog),
{
    if char_count(q) == 0 {
        let r: Vec<SearchTarget<K>> = Vec::new();
        assert(target_views(r@) =~= seq![]);
        return r;
    }
    let ghost ql = q@;
    let mut scored: Vec<(u8, SearchTarget<K>)> = Vec::new();

    let bodies = solar_system_body_names();
    let ghost body_names = bodies@.map_values(|s: &'static str| s@);
    let mut i: usize = 0;
    while i < bodies.len()
        invariant
            i <= bodies@.len(),
            body_names == bodies@.map_values(|s: &'static str| s@),
            ql == q@,
            scored_views(scored@) == scored_bodies::<K>(body_names.take(i as int), ql),
        decreases bodies@.len() - i,
    {
        let name = bodies[i];
        proof {
            assert(body_names.take(i + 1).drop_last() =~= body_names.take(i as int));
            assert(body_names.take(i + 1).last() == name@);
        }
        let ghost before = scored@;
        if let Some(rank) = match_rank(name, q) {
            let t = SearchTarget {
                name: String::from_str(name),
                kind: SearchKind::SolarSystem,
                category: solar_category(name),
            };
            scored.push((rank, t));
            assert(scored_views(scored@) =~= scored_views(before).push((rank, t@)));
        }
        i = i + 1;
    }
    assert(body_names.take(bodies@.len() as int) =~= body_names);
    let ghost after_bodies = scored_views(scored@);

    let mut i: usize = 0;
    while i < catalog.spacecraft.len()
        invariant
            i <= catalog.spacecraft@.len(),
            ql == q@,
            after_bodies == scored_bodies::<K>(solar_body_name_table(), ql),
            scored_views(scored@) == after_bodies + scored_fixed(
                catalog.spacecraft@.take(i as int),
                ql,
                "Spacecraft"@,
            ),
        decreases catalog.spacecraft@.len() - i,
    {
        let o = &catalog.spacecraft[i];
        proof {
            assert(catalog.spacecraft@.take(i + 1).drop_last() =~= catalog.spacecraft@.take(
                i as int,
            ));
        }
        let ghost before = scored@;
        if let Some(rank) = match_rank(o.name.as_str(), q) {
            let t = SearchTarget {
                name: o.name.clone(),
                kind: SearchKind::Fixed(o.coords),
                category: "Spacecraft",
            };
            scored.push((rank, t));
            assert(scored_views(scored@) =~= scored_views(before).push((rank, t@)));
        }
        i = i + 1;
    }
    assert(catalog.spacecraft@.take(catalog.spacecraft@.len() as int) =~= catalog.spacecraft@);
    let ghost after_craft = scored_views(scored@);

    let mut i: usize = 0;
    while i < catalog.stars.len()
        invariant
            i <= catalog.stars@.len(),
            ql == q@,
            scored_views(scored@) == after_craft + scored_fixed(
                catalog.stars@.take(i as int),
                ql,
                "Star"@,
            ),
        decreases catalog.stars@.len() - i,
    {
        let o = &catalog.stars[i];
        proof {
            assert(catalog.stars@.take(i + 1).drop_last() =~= catalog.stars@.take(i as int));
        }
        let ghost before = scored@;
        if let Some(rank) = match_rank(o.name.as_str(), q) {
            let t = SearchTarget {
                name: o.name.clone(),
                kind: SearchKind::Fixed(o.coords),
                category: "Star",
            };
            scored.push((rank, t));
            assert(scored_views(scored@) =~= scored_views(before).push((rank, t@)));
        }
        i = i + 1;
    }
    assert(catalog.stars@.take(catalog.stars@.len() as int) =~= catalog.stars@);
    let ghost after_stars = scored_views(scored@);

    let mut seen: Vec<String> = Vec::new();
    let mut i: usize = 0;
    while i < catalog.constellation_lines.len()
        invariant
            i <= catalog.constellation_lines@.len(),
            ql == q@,
            forall|x: Seq<char>|
                seen@.map_values(|s: String| s@).contains(x) <==> #[trigger] names_of(
                    catalog.constellation_lines@.take(i as int),
                ).contains(x),
            scored_views(scored@) == after_stars + scored_constellations(
                catalog.constellation_lines@.take(i as int),
                ql,
            ),
        decreases catalog.constellation_lines@.len() - i,
    {
        let line = &catalog.constellation_lines[i];
        let ghost lines = catalog.constellation_lines@;
        proof {
            assert(lines.take(i + 1).drop_last() =~= lines.take(i as int));
            assert(names_of(lines.take(i + 1)) =~= names_of(lines.take(i as int)).push(line.name@));
        }
        let ghost before = scored@;
        let ghost seen_before = seen@;
        if !seen_contains(&seen, line.name.as_str()) {
            seen.push(line.name.clone());
            assert(seen@.map_values(|s: String| s@) =~= seen_before.map_values(|s: String| s@).push(
                line.name@,
            ));
            if let Some(rank) = match_rank(line.name.as_str(), q) {
                if let Some(coords) = line.coords {
                    let t = SearchTarget {
                        name: line.name.clone(),
                        kind: SearchKind::Fixed(coords),
                        category: "Constellation",
                    };
                    scored.push((rank, t));
                    assert(scored_views(scored@) =~= scored_views(before).push((rank, t@)));
                }
            }
        }
        proof {
            assert forall|x: Seq<char>|
                seen@.map_values(|s: String| s@).contains(x) <==> #[trigger] names_of(
                    lines.take(i + 1),
                ).contains(x) by {
                let a = names_of(lines.take(i as int));
                let b = names_of(lines.take(i + 1));
                assert(b == a.push(line.name@));
                if b.contains(x) {
                    let k = choose|k: int| 0 <= k < b.len() && b[k] == x;
                    if k < a.len() {
                        assert(a[k] == x);
                    }
                }
                if a.contains(x) {
                    let k = choose|k: int| 0 <= k < a.len() && a[k] == x;
                    assert(b[k] == x);
                }
                assert(b[a.len() as int] == line.name@);
                let sv = seen@.map_values(|s: String| s@);
                let sv0 = seen_before.map_values(|s: String| s@);
                if sv.len() != sv0.len() {
                    assert(sv == sv0.push(line.name@));
                    if sv.contains(x) {
                        let k = choose|k: int| 0 <= k < sv.len() && sv[k] == x;
                        if k < sv0.len() {
                            assert(sv0[k] == x);
                        }
                    }
                    if sv0.contains(x) {
                        let k = choose|k: int| 0 <= k < sv0.len() && sv0[k] == x;
                        assert(sv[k] == x);
                    }
                    assert(sv[sv0.len() as int] == line.name@);
                }
            }
        }
        i = i + 1;
    }
    assert(catalog.constellation_lines@.take(catalog.constellation_lines@.len() as int)
        =~= catalog.constellation_lines@);
    let ghost all = scored_views(scored@);
    assert(all == scored_candidates(catalog, ql));

    let mut ordered: Vec<SearchTarget<K>> = Vec::new();
    let mut j: usize = 0;
    while j < scored.len()
        invariant
            j <= scored@.len(),
            all == scored_views(scored@),
            target_views(ordered@) == with_rank(all.take(j as int), 0),
        decreases scored@.len() - j,
    {
        proof {
            assert(all.take(j + 1).drop_last() =~= all.take(j as int));
        }
        if scored[j].0 == 0 {
            let ghost before = ordered@;
            ordered.push(copy_target(&scored[j].1));
            assert(target_views(ordered@) =~= target_views(before).push(scored@[j as int].1@));
        }
        j = j + 1;
    }
    assert(all.take(scored@.len() as int) =~= all);
    let ghost first = target_views(ordered@);
    let mut j: usize = 0;
    while j < scored.len()
        invariant
            j <= scored@.len(),
            all == scored_views(scored@),
            first == with_rank(all, 0),
            target_views(ordered@) == first + with_rank(all.take(j as int), 1),
        decreases scored@.len() - j,
    {
        proof {
            assert(all.take(j + 1).drop_last() =~= all.take(j as int));
        }
        if scored[j].0 == 1 {
            let ghost before = ordered@;
            ordered.push(copy_target(&scored[j].1));
            assert(target_views(ordered@) =~= target_views(before).push(scored@[j as int].1@));
        }
        j = j + 1;
    }
    assert(all.take(scored@.len() as int) =~= all);
    let ghost full = target_views(ordered@);
    ordered.truncate(MAX_RESULTS);
    assert(target_views(ordered@) =~= if full.len() > MAX_RESULTS {
        full.take(MAX_RESULTS as int)
    } else {
        full
    });
    ordered
}

/// Every scored entry carries the rank its name has against the query.
pub open spec fn ranks_agree<K>(s: Seq<(u8, TargetView<K>)>, q: Seq<char>) -> bool {
    forall|k: int| 0 <= k < s.len() ==> rank_of((#[trigger] s[k]).1.name, q) == Some(s[k].0)
}

proof fn lemma_push_agrees<K>(s: Seq<(u8, TargetView<K>)>, e: (u8, TargetView<K>), q: Seq<char>)
    requires
        ranks_agree(s, q),
        rank_of(e.1.name, q) == Some(e.0),
    ensures
        ranks_agree(s.push(e), q),
{
    assert forall|k: int| 0 <= k < s.push(e).len() implies rank_of(
        (#[trigger] s.push(e)[k]).1.name,
        q,
    ) == Some(s.push(e)[k].0) by {
        if k < s.len() {
            assert(s.push(e)[k] == s[k]);
        }
    }
}

proof fn lemma_concat_agrees<K>(a: Seq<(u8, TargetView<K>)>, b: Seq<(u8, TargetView<K>)>, q: Seq<char>)
    requires
        ranks_agree(a, q),
        ranks_agree(b, q),
    ensures
        ranks_agree(a + b, q),
{
    assert forall|k: int| 0 <= k < (a + b).len() implies rank_of(
        (#[trigger] (a + b)[k]).1.name,
        q,
    ) == Some((a + b)[k].0) by {
        if k < a.len() {
            assert((a + b)[k] == a[k]);
        } else {
            assert((a + b)[k] == b[k - a.len()]);
        }
    }
}

proof fn lemma_bodies_agree<K>(names: Seq<Seq<char>>, q: Seq<char>)
    ensures
        ranks_agree(scored_bodies::<K>(names, q), q),
    decreases names.len(),
{
    if names.len() > 0 {
        lemma_bodies_agree::<K>(names.drop_last(), q);
        let n = names.last();
        if let Some(r) = rank_of(n, q) {
            lemma_push_agrees(
                scored_bodies::<K>(names.drop_last(), q),
                (
                    r,
                    TargetView {
                        name: n,
                        kind: SearchKind::SolarSystem,
                        category: solar_category_of(n),
                    },
                ),
                q,
            );
        }
    }
}

proof fn lemma_fixed_agree<K>(objs: Seq<NamedObject<K>>, q: Seq<char>, category: Seq<char>)
    ensures
        ranks_agree(scored_fixed(objs, q, category), q),
    decreases objs.len(),
{
    if objs.len() > 0 {
        lemma_fixed_agree(objs.drop_last(), q, category);
        let o = objs.last();
        if let Some(r) = rank_of(o.name@, q) {
            lemma_push_agrees(
                scored_fixed(objs.drop_last(), q, category),
                (r, TargetView { name: o.name@, kind: SearchKind::Fixed(o.coords), category }),
                q,
            );
        }
    }
}

proof fn lemma_constellations_agree<K>(lines: Seq<NamedObject<Option<K>>>, q: Seq<char>)
    ensures
        ranks_agree(scored_constellations(lines, q), q),
    decreases lines.len(),
{
    if lines.len() > 0 {
        lemma_constellations_agree(lines.drop_last(), q);
        let l = lines.last();
        if !names_of(lines.drop_last()).contains(l.name@) {
            if let (Some(r), Some(c)) = (rank_of(l.name@, q), l.coords) {
                lemma_push_agrees(
                    scored_constellations(lines.drop_last(), q),
                    (
                        r,
                        TargetView {
                            name: l.name@,
                            kind: SearchKind::Fixed(c),
                            category: "Constellation"@,
                        },
                    ),
                    q,
                );
            }
        }
    }
}

proof fn lemma_with_rank_agrees<K>(s: Seq<(u8, TargetView<K>)>, r: u8, q: Seq<char>)
    requires
        ranks_agree(s, q),
    ensures
        forall|k: int|
            0 <= k < with_rank(s, r).len() ==> rank_of((#[trigger] with_rank(s, r)[k]).name, q)
                == Some(r),
    decreases s.len(),
{
    if s.len() > 0 {
        let d = s.drop_last();
        assert forall|k: int| 0 <= k < d.len() implies rank_of((#[trigger] d[k]).1.name, q) == Some(
            d[k].0,
        ) by {
            assert(d[k] == s[k]);
        }
        lemma_with_rank_agrees(d, r, q);
        let w = with_rank(s, r);
        let wd = with_rank(d, r);
        assert forall|k: int| 0 <= k < w.len() implies rank_of((#[trigger] w[k]).name, q) == Some(
            r,
        ) by {
            if k < wd.len() {
                assert(w[k] == wd[k]);
            } else {
                assert(s[s.len() - 1] == s.last());
            }
        }
    }
}

/// A search never lists more than [`MAX_RESULTS`] targets, and a blank
/// query (empty or only white space) lists none.
pub proof fn law_search_is_capped<K>(query: Seq<char>, cat: &ObjectCatalog<K>)
    ensures
        search_result(query, cat).len() <= MAX_RESULTS,
        trimmed(query).len() == 0 ==> search_result(query, cat).len() == 0,
{
}

/// Every listed target matches the cleaned query, and prefix matches come
/// before substring matches: a target whose name starts with the query is
/// never preceded by one that merely contains it.
pub proof fn law_search_ranks_prefix_first<K>(query: Seq<char>, cat: &ObjectCatalog<K>)
    ensures
        ({
            let q = lowercase(trimmed(query));
            let r = search_result(query, cat);
            &&& forall|k: int| 0 <= k < r.len() ==> (#[trigger] rank_of(r[k].name, q)) is Some
            &&& forall|i: int, j: int|
                0 <= i < j < r.len() && rank_of(r[j].name, q) == Some(0u8) ==> rank_of(
                    r[i].name,
                    q,
                ) == Some(0u8)
        }),
{
    let q = lowercase(trimmed(query));
    if q.len() > 0 {
        let s = scored_candidates(cat, q);
        lemma_bodies_agree::<K>(solar_body_name_table(), q);
        lemma_fixed_agree(cat.spacecraft@, q, "Spacecraft"@);
        lemma_fixed_agree(cat.stars@, q, "Star"@);
        lemma_constellations_agree(cat.constellation_lines@, q);
        let s1 = scored_bodies::<K>(solar_body_name_table(), q);
        let s2 = scored_fixed(cat.spacecraft@, q, "Spacecraft"@);
        let s3 = scored_fixed(cat.stars@, q, "Star"@);
        let s4 = scored_constellations(cat.constellation_lines@, q);
        lemma_concat_agrees(s1, s2, q);
        lemma_concat_agrees(s1 + s2, s3, q);
        lemma_concat_agrees(s1 + s2 + s3, s4, q);
        lemma_with_rank_agrees(s, 0, q);
        lemma_with_rank_agrees(s, 1, q);
        let a = with_rank(s, 0);
        let b = with_rank(s, 1);
        let ordered = a + b;
        let r = search_result(query, cat);
        assert forall|k: int| 0 <= k < r.len() implies rank_of(r[k].name, q) == if k < a.len() {
            Some(0u8)
        } else {
            Some(1u8)
        } by {
            assert(r[k] == ordered[k]);
            if k < a.len() {
                assert(ordered[k] == a[k]);
            } else {
                assert(ordered[k] == b[k - a.len()]);
            }
        }
    }
}

/// No two constellation entries of `s` share a name.
pub open spec fn constellations_distinct<K>(s: Seq<TargetView<K>>) -> bool {
    forall|i: int, j: int|
        0 <= i < j < s.len() && (#[trigger] s[i]).category == "Constellation"@ && (
        #[trigger] s[j]).category == "Constellation"@ ==> s[i].name != s[j].name
}

/// No two entries at different positions of `s` are constellations of the
/// same name.
spec fn scored_distinct<K>(s: Seq<(u8, TargetView<K>)>) -> bool {
    forall|i: int, j: int|
        0 <= i < s.len() && 0 <= j < s.len() && i != j && (#[trigger] s[i]).1.category
            == "Constellation"@ && (#[trigger] s[j]).1.category == "Constellation"@ ==> s[i].1.name
            != s[j].1.name
}

/// No entry of `s` is a constellation.
spec fn no_constellation<K>(s: Seq<(u8, TargetView<K>)>) -> bool {
    forall|k: int| 0 <= k < s.len() ==> (#[trigger] s[k]).1.category != "Constellation"@
}

proof fn lemma_bodies_not_constellations<K>(names: Seq<Seq<char>>, q: Seq<char>)
    ensures
        no_constellation(scored_bodies::<K>(names, q)),
    decreases names.len(),
{
    reveal_strlit("Sun");
    reveal_strlit("Moon");
    reveal_strlit("Planet");
    reveal_strlit("Constellation");
    if names.len() > 0 {
        lemma_bodies_not_constellations::<K>(names.drop_last(), q);
        let prev = scored_bodies::<K>(names.drop_last(), q);
        let cur = scored_bodies::<K>(names, q);
        assert forall|k: int| 0 <= k < cur.len() implies (#[trigger] cur[k]).1.category
            != "Constellation"@ by {
            if k < prev.len() {
                assert(cur[k] == prev[k]);
            } else {
                assert(cur[k].1.category.len() != "Constellation"@.len());
            }
        }
    }
}

proof fn lemma_fixed_category<K>(objs: Seq<NamedObject<K>>, q: Seq<char>, category: Seq<char>)
    ensures
        forall|k: int|
            0 <= k < scored_fixed(objs, q, category).len() ==> (#[trigger] scored_fixed(
                objs,
                q,
                category,
            )[k]).1.category == category,
    decreases objs.len(),
{
    if objs.len() > 0 {
        lemma_fixed_category(objs.drop_last(), q, category);
        let prev = scored_fixed(objs.drop_last(), q, category);
        let cur = scored_fixed(objs, q, category);
        assert forall|k: int| 0 <= k < cur.len() implies (#[trigger] cur[k]).1.category
            == category by {
            if k < prev.len() {
                assert(cur[k] == prev[k]);
            }
        }
    }
}

proof fn lemma_constellations_unique<K>(lines: Seq<NamedObject<Option<K>>>, q: Seq<char>)
    ensures
        forall|k: int|
            0 <= k < scored_constellations(lines, q).len() ==> names_of(lines).contains(
                (#[trigger] scored_constellations(lines, q)[k]).1.name,
            ),
        scored_distinct(scored_constellations(lines, q)),
    decreases lines.len(),
{
    if lines.len() > 0 {
        let d = lines.drop_last();
        let l = lines.last();
        lemma_constellations_unique(d, q);
        let prev = scored_constellations(d, q);
        let cur = scored_constellations(lines, q);
        assert(names_of(lines) =~= names_of(d).push(l.name@));
        assert forall|k: int| 0 <= k < cur.len() implies names_of(lines).contains(
            (#[trigger] cur[k]).1.name,
        ) by {
            if k < prev.len() {
                assert(cur[k] == prev[k]);
                let m = choose|m: int| 0 <= m < names_of(d).len() && names_of(d)[m] == prev[k].1.name;
                assert(names_of(lines)[m] == names_of(d)[m]);
            } else {
                assert(names_of(lines)[names_of(d).len() as int] == l.name@);
            }
        }
        assert forall|i: int, j: int|
            0 <= i < cur.len() && 0 <= j < cur.len() && i != j && (#[trigger] cur[i]).1.category
                == "Constellation"@ && (#[trigger] cur[j]).1.category == "Constellation"@ implies cur[i].1.name
            != cur[j].1.name by {
            if i < prev.len() && j < prev.len() {
                assert(cur[i] == prev[i]);
                assert(cur[j] == prev[j]);
            } else if i < prev.len() {
                assert(cur[i] == prev[i]);
                assert(names_of(d).contains(prev[i].1.name));
            } else {
                assert(cur[j] == prev[j]);
                assert(names_of(d).contains(prev[j].1.name));
            }
        }
    }
}

/// Position in `s` of the `k`-th entry of rank `r`.
spec fn rank_pos<K>(s: Seq<(u8, TargetView<K>)>, r: u8, k: int) -> int
    decreases s.len(),
{
    if s.len() == 0 {
        0
    } else if s.last().0 == r && k == with_rank(s.drop_last(), r).len() {
        s.len() - 1
    } else {
        rank_pos(s.drop_last(), r, k)
    }
}

proof fn lemma_rank_pos<K>(s: Seq<(u8, TargetView<K>)>, r: u8)
    ensures
        forall|k: int|
            0 <= k < with_rank(s, r).len() ==> 0 <= #[trigger] rank_pos(s, r, k) < s.len() && s[rank_pos(
                s,
                r,
                k,
            )].0 == r && s[rank_pos(s, r, k)].1 == with_rank(s, r)[k],
        forall|k1: int, k2: int|
            0 <= k1 < k2 < with_rank(s, r).len() ==> #[trigger] rank_pos(s, r, k1)
                < #[trigger] rank_pos(s, r, k2),
    decreases s.len(),
{
    if s.len() > 0 {
        let d = s.drop_last();
        lemma_rank_pos(d, r);
        let wd = with_rank(d, r);
        let w = with_rank(s, r);
        assert forall|k: int| 0 <= k < w.len() implies 0 <= #[trigger] rank_pos(s, r, k) < s.len()
            && s[rank_pos(s, r, k)].0 == r && s[rank_pos(s, r, k)].1 == w[k] by {
            if k < wd.len() {
                assert(w[k] == wd[k]);
                let p = rank_pos(d, r, k);
                assert(s[p] == d[p]);
            } else {
                assert(s[s.len() - 1] == s.last());
            }
        }
        assert forall|k1: int, k2: int| 0 <= k1 < k2 < w.len() implies #[trigger] rank_pos(s, r, k1)
            < #[trigger] rank_pos(s, r, k2) by {
            if k2 < wd.len() {
                assert(rank_pos(d, r, k1) < rank_pos(d, r, k2));
            } else {
                assert(rank_pos(d, r, k1) < d.len());
            }
        }
    }
}

/// Each constellation is listed at most once, however many of its lines
/// the catalog holds.
pub proof fn law_search_lists_constellations_once<K>(query: Seq<char>, cat: &ObjectCatalog<K>)
    ensures
        constellations_distinct(search_result(query, cat)),
{
    let q = lowercase(trimmed(query));
    if q.len() > 0 {
        reveal_strlit("Spacecraft");
        reveal_strlit("Star");
        reveal_strlit("Constellation");
        let s1 = scored_bodies::<K>(solar_body_name_table(), q);
        let s2 = scored_fixed(cat.spacecraft@, q, "Spacecraft"@);
        let s3 = scored_fixed(cat.stars@, q, "Star"@);
        let s4 = scored_constellations(cat.constellation_lines@, q);
        lemma_bodies_not_constellations::<K>(solar_body_name_table(), q);
        lemma_fixed_category(cat.spacecraft@, q, "Spacecraft"@);
        lemma_fixed_category(cat.stars@, q, "Star"@);
        lemma_constellations_unique(cat.constellation_lines@, q);
        let x = s1 + s2 + s3;
        assert forall|k: int| 0 <= k < x.len() implies (#[trigger] x[k]).1.category
            != "Constellation"@ by {
            if k < s1.len() {
                assert(x[k] == s1[k]);
            } else if k < s1.len() + s2.len() {
                assert(x[k] == s2[k - s1.len()]);
                assert("Spacecraft"@.len() != "Constellation"@.len());
            } else {
                assert(x[k] == s3[k - (s1.len() + s2.len())]);
                assert("Star"@.len() != "Constellation"@.len());
            }
        }
        let s = scored_candidates(cat, q);
        assert(s == x + s4);
        assert forall|i: int, j: int|
            0 <= i < s.len() && 0 <= j < s.len() && i != j && (#[trigger] s[i]).1.category
                == "Constellation"@ && (#[trigger] s[j]).1.category == "Constellation"@ implies s[i].1.name
            != s[j].1.name by {
            if i < x.len() {
                assert(s[i] == x[i]);
            } else if j < x.len() {
                assert(s[j] == x[j]);
            } else {
                assert(s[i] == s4[i - x.len()]);
                assert(s[j] == s4[j - x.len()]);
            }
        }
        lemma_rank_pos(s, 0);
        lemma_rank_pos(s, 1);
        let a = with_rank(s, 0);
        let b = with_rank(s, 1);
        let ordered = a + b;
        let r = search_result(query, cat);
        assert forall|i: int, j: int|
            0 <= i < j < r.len() && (#[trigger] r[i]).category == "Constellation"@ && (
            #[trigger] r[j]).category == "Constellation"@ implies r[i].name != r[j].name by {
            assert(r[i] == ordered[i]);
            assert(r[j] == ordered[j]);
            let pi = if i < a.len() {
                rank_pos(s, 0, i)
            } else {
                rank_pos(s, 1, i - a.len())
            };
            let pj = if j < a.len() {
                rank_pos(s, 0, j)
            } else {
                rank_pos(s, 1, j - a.len())
            };
            if i < a.len() {
                assert(ordered[i] == a[i]);
            } else {
                assert(ordered[i] == b[i - a.len()]);
            }
            if j < a.len() {
                assert(ordered[j] == a[j]);
            } else {
                assert(ordered[j] == b[j - a.len()]);
            }
            assert(s[pi].1 == r[i]);
            assert(s[pj].1 == r[j]);
            assert(pi != pj);
        }
    }
}

/// The scored entry a Solar System body gets for a query it matches.
pub open spec fn body_entry<K>(n: Seq<char>, q: Seq<char>) -> (u8, TargetView<K>) {
    (rank_of(n, q)->0, TargetView { name: n, kind: SearchKind::SolarSystem, category: solar_category_of(n) })
}

proof fn lemma_bodies_listed<K>(names: Seq<Seq<char>>, q: Seq<char>)
    ensures
        forall|i: int|
            0 <= i < names.len() && (#[trigger] rank_of(names[i], q)) is Some ==> scored_bodies::<K>(
                names,
                q,
            ).contains(body_entry::<K>(names[i], q)),
    decreases names.len(),
{
    if names.len() > 0 {
        let d = names.drop_last();
        lemma_bodies_listed::<K>(d, q);
        let prev = scored_bodies::<K>(d, q);
        let cur = scored_bodies::<K>(names, q);
        assert forall|i: int|
            0 <= i < names.len() && (#[trigger] rank_of(names[i], q)) is Some implies cur.contains(
            body_entry::<K>(names[i], q),
        ) by {
            if i < d.len() {
                assert(names[i] == d[i]);
                assert(rank_of(d[i], q) is Some);
                let k = choose|k: int| 0 <= k < prev.len() && prev[k] == body_entry::<K>(d[i], q);
                if rank_of(names.last(), q) is Some {
                    assert(cur[k] == prev[k]);
                } else {
                    assert(cur == prev);
                }
            } else {
                assert(names[i] == names.last());
                assert(cur[cur.len() - 1] == body_entry::<K>(names[i], q));
            }
        }
    }
}

proof fn lemma_with_rank_contains<K>(s: Seq<(u8, TargetView<K>)>, e: (u8, TargetView<K>))
    requires
        s.contains(e),
    ensures
        with_rank(s, e.0).contains(e.1),
    decreases s.len(),
{
    let d = s.drop_last();
    let w = with_rank(s, e.0);
    if s.last() == e {
        assert(w[w.len() - 1] == e.1);
    } else {
        let k = choose|k: int| 0 <= k < s.len() && s[k] == e;
        assert(k < d.len());
        assert(d[k] == e);
        lemma_with_rank_contains(d, e);
        let wd = with_rank(d, e.0);
        let j = choose|j: int| 0 <= j < wd.len() && wd[j] == e.1;
        if s.last().0 == e.0 {
            assert(w[j] == wd[j]);
        } else {
            assert(w == wd);
        }
    }
}

/// No Solar System body is overlooked: the bodies are the Sun, the Moon
/// and the five naked-eye planets, and for a non-blank query every body
/// whose lowercased name the cleaned query starts or occurs in is listed,
/// as a Solar System target with its category, unless the list is already
/// full.
pub proof fn law_search_lists_matching_bodies<K>(query: Seq<char>, cat: &ObjectCatalog<K>)
    ensures
        solar_body_name_table() == seq![
            "Sun"@,
            "Moon"@,
            "Mercury"@,
            "Venus"@,
            "Mars"@,
            "Jupiter"@,
            "Saturn"@,
        ],
        ({
            let q = lowercase(trimmed(query));
            let r = search_result(query, cat);
            (trimmed(query).len() > 0 && q.len() > 0 && r.len() < MAX_RESULTS) ==> forall|i: int|
                0 <= i < solar_body_name_table().len() && (#[trigger] rank_of(
                    solar_body_name_table()[i],
                    q,
                )) is Some ==> r.contains(
                    TargetView {
                        name: solar_body_name_table()[i],
                        kind: SearchKind::SolarSystem,
                        category: solar_category_of(solar_body_name_table()[i]),
                    },
                )
        }),
{
    let q = lowercase(trimmed(query));
    let r = search_result(query, cat);
    if trimmed(query).len() > 0 && q.len() > 0 && r.len() < MAX_RESULTS {
        let names = solar_body_name_table();
        lemma_bodies_listed::<K>(names, q);
        let s1 = scored_bodies::<K>(names, q);
        let rest = scored_fixed(cat.spacecraft@, q, "Spacecraft"@) + scored_fixed(
            cat.stars@,
            q,
            "Star"@,
        ) + scored_constellations(cat.constellation_lines@, q);
        let s = scored_candidates(cat, q);
        assert(s =~= s1 + rest);
        let a = with_rank(s, 0);
        let b = with_rank(s, 1);
        let ordered = a + b;
        assert(r == ordered);
        assert forall|i: int|
            0 <= i < names.len() && (#[trigger] rank_of(names[i], q)) is Some implies r.contains(
            TargetView {
                name: names[i],
                kind: SearchKind::SolarSystem,
                category: solar_category_of(names[i]),
            },
        ) by {
            let e = body_entry::<K>(names[i], q);
            let k = choose|k: int| 0 <= k < s1.len() && s1[k] == e;
            assert(s[k] == e);
            lemma_with_rank_contains(s, e);
            let w = with_rank(s, e.0);
            let j = choose|j: int| 0 <= j < w.len() && w[j] == e.1;
            if e.0 == 0 {
                assert(ordered[j] == e.1);
            } else {
                assert(e.0 == 1);
                assert(ordered[a.len() + j] == e.1);
            }
        }
    }
}

} // verus!
