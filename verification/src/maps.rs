//! Map lookup chained through inclusions. A key is looked up in the
//! map's own values first (local entries win); if absent, the map's
//! inclusions are walked so that later-declared inclusions override
//! earlier ones, each inclusion resolved the same way. A map reached
//! twice along one chain is a cyclic inclusion, reported as such and
//! never an infinite walk; an inclusion that is not yet cached is
//! reported so the caller can load it and retry.
//!
//! Cycle detection is deliberately per lookup chain, not a separate
//! pass over the whole inclusion graph: a key bound in a map's own
//! values is served without consulting the inclusions at all, so a
//! cycle is reported exactly when a lookup walks into it. Every lookup
//! terminates regardless, by the decreasing measure of `spec_lookup`.

use vstd::prelude::*;
use crate::filebase::Filebase;
use crate::schema::MapFile;
use crate::text::str_eq;

verus! {

/// The value stored under a key in a map's own entries: first match.
pub open spec fn spec_values_get(values: Seq<(String, String)>, key: Seq<char>) -> Option<Seq<char>>
    decreases values.len(),
{
    if values.len() == 0 {
        None
    } else if values[0].0@ == key {
        Some(values[0].1@)
    } else {
        spec_values_get(values.skip(1), key)
    }
}

proof fn lemma_values_get_skip(values: Seq<(String, String)>, key: Seq<char>, i: int)
    requires
        0 <= i <= values.len(),
        forall|j: int| 0 <= j < i ==> values[j].0@ != key,
    ensures
        spec_values_get(values, key) == spec_values_get(values.skip(i), key),
    decreases i,
{
    if i > 0 {
        lemma_values_get_skip(values.skip(1), key, i - 1);
        assert(values.skip(1).skip(i - 1) =~= values.skip(i));
    } else {
        assert(values.skip(0) =~= values);
    }
}

/// The identifiers of a visited list, as a set.
pub open spec fn vset(s: Seq<String>) -> Set<Seq<char>>
    decreases s.len(),
{
    if s.len() == 0 {
        Set::empty()
    } else {
        vset(s.drop_last()).insert(s.last()@)
    }
}

proof fn lemma_vset_contains(s: Seq<String>, k: Seq<char>)
    ensures
        vset(s).contains(k) <==> (exists|i: int| 0 <= i < s.len() && s[i]@ == k),
    decreases s.len(),
{
    if s.len() > 0 {
        lemma_vset_contains(s.drop_last(), k);
        if s.last()@ == k {
            assert(s[s.len() - 1]@ == k);
        } else {
            if vset(s).contains(k) {
                let i = choose|i: int| 0 <= i < s.drop_last().len() && s.drop_last()[i]@ == k;
                assert(s[i]@ == k);
            }
            if exists|i: int| 0 <= i < s.len() && s[i]@ == k {
                let i = choose|i: int| 0 <= i < s.len() && s[i]@ == k;
                assert(s.drop_last()[i]@ == k);
            }
        }
    }
}

proof fn lemma_diff_insert(dom: Set<Seq<char>>, visited: Set<Seq<char>>, id: Seq<char>)
    requires
        dom.finite(),
        visited.subset_of(dom),
        dom.contains(id),
        !visited.contains(id),
    ensures
        visited.insert(id).subset_of(dom),
        dom.difference(visited.insert(id)).len() < dom.difference(visited).len(),
{
    assert(dom.difference(visited.insert(id)) =~= dom.difference(visited).remove(id));
    assert(dom.difference(visited).contains(id));
}

/// What a chained lookup yields.
pub enum SpecLookup {
    Found(Seq<char>),
    Missing,
    NeedsMap(Seq<char>),
    CycleAt(Seq<char>),
}

/// Chained lookup of `key` through map `id`: a map already on the
/// visited chain is a cycle; an uncached map must be loaded first;
/// otherwise the map's own values win, and failing those, the
/// inclusions are consulted from the last declared one backwards.
pub open spec fn spec_lookup(
    maps: Map<Seq<char>, MapFile>,
    id: Seq<char>,
    key: Seq<char>,
    visited: Set<Seq<char>>,
) -> SpecLookup
    decreases maps.dom().difference(visited).len(), 0int, 0int,
    when maps.dom().finite() && visited.subset_of(maps.dom())
    via spec_lookup_dec
{
    if visited.contains(id) {
        SpecLookup::CycleAt(id)
    } else if !maps.dom().contains(id) {
        SpecLookup::NeedsMap(id)
    } else {
        match spec_values_get(maps[id].values@, key) {
            Some(v) => SpecLookup::Found(v),
            None => spec_lookup_incl(
                maps,
                maps[id].inclusions@,
                maps[id].inclusions@.len() as int,
                key,
                visited.insert(id),
            ),
        }
    }
}

/// Lookup through the first `n` inclusions, later ones taking
/// precedence; a cycle or a missing load in any consulted inclusion
/// surfaces rather than being skipped.
pub open spec fn spec_lookup_incl(
    maps: Map<Seq<char>, MapFile>,
    incls: Seq<String>,
    n: int,
    key: Seq<char>,
    visited: Set<Seq<char>>,
) -> SpecLookup
    decreases maps.dom().difference(visited).len(), 1int, n,
    when maps.dom().finite() && visited.subset_of(maps.dom())
    via spec_lookup_incl_dec
{
    if n <= 0 {
        SpecLookup::Missing
    } else {
        match spec_lookup(maps, incls[n - 1]@, key, visited) {
            SpecLookup::Found(v) => SpecLookup::Found(v),
            SpecLookup::Missing => spec_lookup_incl(maps, incls, n - 1, key, visited),
            SpecLookup::NeedsMap(x) => SpecLookup::NeedsMap(x),
            SpecLookup::CycleAt(x) => SpecLookup::CycleAt(x),
        }
    }
}

#[via_fn]
proof fn spec_lookup_dec(
    maps: Map<Seq<char>, MapFile>,
    id: Seq<char>,
    key: Seq<char>,
    visited: Set<Seq<char>>,
) {
    if !visited.contains(id) && maps.dom().contains(id) {
        lemma_diff_insert(maps.dom(), visited, id);
    }
}

#[via_fn]
proof fn spec_lookup_incl_dec(
    maps: Map<Seq<char>, MapFile>,
    incls: Seq<String>,
    n: int,
    key: Seq<char>,
    visited: Set<Seq<char>>,
) {
}

/// Local entries win: a key bound in a map's own values is served from
/// them, whatever its inclusions hold — even a cyclic chain.
pub proof fn lemma_local_entry_wins(
    maps: Map<Seq<char>, MapFile>,
    id: Seq<char>,
    key: Seq<char>,
    v: Seq<char>,
)
    requires
        maps.dom().finite(),
        maps.dom().contains(id),
        spec_values_get(maps[id].values@, key) == Some(v),
    ensures
        spec_lookup(maps, id, key, Set::empty()) == SpecLookup::Found(v),
{
    assert(Set::<Seq<char>>::empty().subset_of(maps.dom()));
    assert(!Set::<Seq<char>>::empty().contains(id));
}

/// Inherited entries: a key absent from a map's own values is resolved
/// through its inclusions, consulted from the last declared one
/// backwards, with the map itself marked visited.
pub proof fn lemma_key_inherited(maps: Map<Seq<char>, MapFile>, id: Seq<char>, key: Seq<char>)
    requires
        maps.dom().finite(),
        maps.dom().contains(id),
        spec_values_get(maps[id].values@, key) is None,
    ensures
        spec_lookup(maps, id, key, Set::empty()) == spec_lookup_incl(
            maps,
            maps[id].inclusions@,
            maps[id].inclusions@.len() as int,
            key,
            Set::empty().insert(id),
        ),
{
    assert(Set::<Seq<char>>::empty().subset_of(maps.dom()));
    assert(!Set::<Seq<char>>::empty().contains(id));
}

/// Later inclusions override earlier ones: a key the last-declared
/// inclusion resolves is served from it, whatever the earlier
/// inclusions bind it to.
pub proof fn lemma_last_inclusion_wins(
    maps: Map<Seq<char>, MapFile>,
    id: Seq<char>,
    key: Seq<char>,
    v: Seq<char>,
)
    requires
        maps.dom().finite(),
        maps.dom().contains(id),
        spec_values_get(maps[id].values@, key) is None,
        maps[id].inclusions@.len() > 0,
        spec_lookup(maps, maps[id].inclusions@.last()@, key, Set::empty().insert(id))
            == SpecLookup::Found(v),
    ensures
        spec_lookup(maps, id, key, Set::empty()) == SpecLookup::Found(v),
{
    lemma_key_inherited(maps, id, key);
    let n = maps[id].inclusions@.len() as int;
    assert(maps[id].inclusions@[n - 1] == maps[id].inclusions@.last());
}

/// A cyclic inclusion is detected and reported as such, never walked
/// forever: two maps that include one another, with the key bound in
/// neither's own values, yield the cycle report. (That no lookup loops
/// or overflows, on any cache at all, is guaranteed separately by the
/// decreasing measure that defines `spec_lookup`.)
pub proof fn lemma_cycle_reported(
    maps: Map<Seq<char>, MapFile>,
    a: Seq<char>,
    b: Seq<char>,
    key: Seq<char>,
)
    requires
        maps.dom().finite(),
        maps.dom().contains(a),
        maps.dom().contains(b),
        a != b,
        maps[a].inclusions@.len() == 1,
        maps[a].inclusions@[0]@ == b,
        maps[b].inclusions@.len() == 1,
        maps[b].inclusions@[0]@ == a,
        spec_values_get(maps[a].values@, key) is None,
        spec_values_get(maps[b].values@, key) is None,
    ensures
        spec_lookup(maps, a, key, Set::empty()) == SpecLookup::CycleAt(a),
{
    let v0 = Set::<Seq<char>>::empty();
    let v1 = v0.insert(a);
    let v2 = v1.insert(b);
    assert(v0.subset_of(maps.dom()));
    assert(v1.subset_of(maps.dom()));
    assert(v2.subset_of(maps.dom()));
    assert(spec_lookup(maps, a, key, v2) == SpecLookup::CycleAt(a));
    assert(spec_lookup_incl(maps, maps[b].inclusions@, 1, key, v2) == SpecLookup::CycleAt(a));
    assert(spec_lookup(maps, b, key, v1) == SpecLookup::CycleAt(a));
    assert(spec_lookup_incl(maps, maps[a].inclusions@, 1, key, v1) == SpecLookup::CycleAt(a));
    assert(spec_lookup(maps, a, key, v0) == SpecLookup::CycleAt(a));
}

/// The outcome of one chained lookup attempt.
pub enum MapLookup {
    /// The key's value, from the nearest map that binds it.
    Found(String),
    /// No map along the chain binds the key.
    Missing,
    /// This map must be loaded into the cache before the lookup can
    /// proceed.
    NeedsMap(String),
    /// This map was reached again along its own inclusion chain.
    CycleAt(String),
}

impl View for MapLookup {
    type V = SpecLookup;

    open spec fn view(&self) -> SpecLookup {
        match self {
            MapLookup::Found(s) => SpecLookup::Found(s@),
            MapLookup::Missing => SpecLookup::Missing,
            MapLookup::NeedsMap(s) => SpecLookup::NeedsMap(s@),
            MapLookup::CycleAt(s) => SpecLookup::CycleAt(s@),
        }
    }
}

/// The value bound to a key in a map's own entries.
pub fn values_get<'a>(values: &'a Vec<(String, String)>, key: &str) -> (r: Option<&'a String>)
    ensures
        match r {
            Some(v) => spec_values_get(values@, key@) == Some(v@),
            None => spec_values_get(values@, key@) is None,
        },
{
    let mut i: usize = 0;
    while i < values.len()
        invariant
            i <= values.len(),
            forall|j: int| 0 <= j < i ==> values@[j].0@ != key@,
        decreases values.len() - i,
    {
        if str_eq(values[i].0.as_str(), key) {
            proof {
                lemma_values_get_skip(values@, key@, i as int);
                assert(values@.skip(i as int)[0] == values@[i as int]);
                assert(spec_values_get(values@.skip(i as int), key@) == Some(values@[i as int].1@));
            }
            return Some(&values[i].1);
        }
        i = i + 1;
    }
    proof {
        lemma_values_get_skip(values@, key@, values@.len() as int);
        assert(values@.skip(values@.len() as int) =~= Seq::<(String, String)>::empty());
    }
    None
}

fn vec_contains_str(v: &Vec<String>, s: &str) -> (r: bool)
    ensures
        r == vset(v@).contains(s@),
{
    proof {
        lemma_vset_contains(v@, s@);
    }
    let mut i: usize = 0;
    while i < v.len()
        invariant
            i <= v.len(),
            forall|j: int| 0 <= j < i ==> v@[j]@ != s@,
        decreases v.len() - i,
    {
        if str_eq(v[i].as_str(), s) {
            proof {
                lemma_vset_contains(v@, s@);
            }
            return true;
        }
        i = i + 1;
    }
    proof {
        lemma_vset_contains(v@, s@);
    }
    false
}

fn push_copy(v: &Vec<String>, extra: &str) -> (r: Vec<String>)
    ensures
        r@.len() == v@.len() + 1,
        r@.drop_last() == v@,
        r@.last()@ == extra@,
        vset(r@) == vset(v@).insert(extra@),
{
    let mut r: Vec<String> = Vec::new();
    let mut i: usize = 0;
    while i < v.len()
        invariant
            i <= v.len(),
            r@ =~= v@.subrange(0, i as int),
        decreases v.len() - i,
    {
        r.push(v[i].clone());
        i = i + 1;
    }
    r.push(extra.to_owned());
    proof {
        assert(r@.drop_last() =~= v@);
    }
    r
}

fn lookup_rec(maps: &Filebase<MapFile>, id: &str, key: &str, visited: &Vec<String>) -> (r:
    MapLookup)
    requires
        maps.wf(),
        maps.contents().dom().finite(),
        vset(visited@).subset_of(maps.contents().dom()),
    ensures
        r@ == spec_lookup(maps.contents(), id@, key@, vset(visited@)),
    decreases maps.contents().dom().difference(vset(visited@)).len(),
{
    if vec_contains_str(visited, id) {
        return MapLookup::CycleAt(id.to_owned());
    }
    let m = match maps.query(id) {
        Ok(m) => m,
        Err(_) => {
            return MapLookup::NeedsMap(id.to_owned());
        },
    };
    if let Some(v) = values_get(&m.values, key) {
        return MapLookup::Found(v.clone());
    }
    let visited2 = push_copy(visited, id);
    proof {
        lemma_diff_insert(maps.contents().dom(), vset(visited@), id@);
    }
    let mut n = m.inclusions.len();
    while n > 0
        invariant
            maps.wf(),
            maps.contents().dom().finite(),
            vset(visited@).subset_of(maps.contents().dom()),
            maps.contents().dom().contains(id@),
            *m == maps.contents().index(id@),
            vset(visited2@) == vset(visited@).insert(id@),
            vset(visited2@).subset_of(maps.contents().dom()),
            maps.contents().dom().difference(vset(visited2@)).len() < maps.contents().dom()
                .difference(vset(visited@)).len(),
            n <= m.inclusions@.len(),
            spec_lookup(maps.contents(), id@, key@, vset(visited@)) == spec_lookup_incl(
                maps.contents(),
                m.inclusions@,
                n as int,
                key@,
                vset(visited2@),
            ),
        decreases n,
    {
        n = n - 1;
        let r = lookup_rec(maps, m.inclusions[n].as_str(), key, &visited2);
        match r {
            MapLookup::Found(v) => {
                return MapLookup::Found(v);
            },
            MapLookup::Missing => {},
            MapLookup::NeedsMap(x) => {
                return MapLookup::NeedsMap(x);
            },
            MapLookup::CycleAt(x) => {
                return MapLookup::CycleAt(x);
            },
        }
    }
    MapLookup::Missing
}

/// Resolves `key` through map `id` and its inclusion chain, starting
/// from an empty visited chain.
pub fn resolve_key(maps: &Filebase<MapFile>, id: &str, key: &str) -> (r: MapLookup)
    requires
        maps.wf(),
    ensures
        r@ == spec_lookup(maps.contents(), id@, key@, Set::empty()),
{
    let visited: Vec<String> = Vec::new();
    proof {
        maps.lemma_contents_finite();
        assert(vset(visited@) =~= Set::<Seq<char>>::empty());
    }
    lookup_rec(maps, id, key, &visited)
}

} // verus!
