//! The region hierarchy loaded from the vendored Geofabrik index: regions by
//! id, which regions have children, and the sorted summary list.
pub mod loader;

use vstd::prelude::*;
use crate::text::{chars_of, chars_lt, str_eq, lex_lt, lemma_lex_irreflexive, lemma_lex_total, lemma_lex_transitive};

verus! {

/// One Geofabrik region: a named geometry in a parent/child hierarchy. The
/// geometry is kept as its GeoJSON text.
#[derive(Debug)]
pub struct Region {
    pub id: String,
    pub name: String,
    pub parent: Option<String>,
    pub geometry: String,
}

/// A region with its texts as character sequences.
pub struct RegionView {
    pub id: Seq<char>,
    pub name: Seq<char>,
    pub parent: Option<Seq<char>>,
    pub geometry: Seq<char>,
}

/// The view of an optional string.
pub open spec fn opt_view(o: Option<String>) -> Option<Seq<char>> {
    match o {
        Some(s) => Some(s@),
        None => None,
    }
}

impl View for Region {
    type V = RegionView;

    open spec fn view(&self) -> RegionView {
        RegionView {
            id: self.id@,
            name: self.name@,
            parent: opt_view(self.parent),
            geometry: self.geometry@,
        }
    }
}

/// Flat list entry returned by the regions endpoint (no geometry).
#[derive(Debug)]
pub struct RegionSummary {
    pub id: String,
    pub name: String,
    pub parent: Option<String>,
    pub has_children: bool,
}

/// The regions by id: where an id occurs more than once, the later region
/// replaces the earlier.
pub open spec fn region_map(rs: Seq<RegionView>) -> Map<Seq<char>, RegionView>
    decreases rs.len(),
{
    if rs.len() == 0 {
        Map::empty()
    } else {
        region_map(rs.drop_last()).insert(rs.last().id, rs.last())
    }
}

/// The regions by id hold exactly the ids that occur.
pub proof fn lemma_region_map_domain(rs: Seq<RegionView>, k: Seq<char>)
    ensures
        region_map(rs).dom().contains(k) <==> exists|i: int| 0 <= i < rs.len() && #[trigger] rs[i].id == k,
    decreases rs.len(),
{
    if rs.len() > 0 {
        let prev = rs.drop_last();
        lemma_region_map_domain(prev, k);
        if region_map(rs).dom().contains(k) && rs.last().id != k {
            let i = choose|i: int| 0 <= i < prev.len() && #[trigger] prev[i].id == k;
            assert(rs[i].id == k);
        }
        if exists|i: int| 0 <= i < rs.len() && #[trigger] rs[i].id == k {
            let i = choose|i: int| 0 <= i < rs.len() && #[trigger] rs[i].id == k;
            if i < rs.len() - 1 {
                assert(prev[i].id == k);
            }
        }
    }
}

/// An id maps to its last occurrence: a later region replaces an earlier
/// one with the same id.
pub proof fn lemma_region_map_last_wins(rs: Seq<RegionView>, i: int)
    requires
        0 <= i < rs.len(),
        forall|j: int| i < j < rs.len() ==> #[trigger] rs[j].id != rs[i].id,
    ensures
        region_map(rs).dom().contains(rs[i].id),
        region_map(rs)[rs[i].id] == rs[i],
    decreases rs.len(),
{
    if i < rs.len() - 1 {
        let prev = rs.drop_last();
        assert(rs.last().id != rs[i].id);
        assert forall|j: int| i < j < prev.len() implies #[trigger] prev[j].id != prev[i].id by {
            assert(prev[j] == rs[j]);
        }
        lemma_region_map_last_wins(prev, i);
    }
}

/// The ids that some region names as its parent.
pub open spec fn parent_ids(rs: Seq<RegionView>) -> Set<Seq<char>> {
    Set::new(|p: Seq<char>| exists|i: int| 0 <= i < rs.len() && rs[i].parent == Some(p))
}

/// Entries strictly ascending by id.
pub open spec fn sorted_by_id(es: Seq<RegionView>) -> bool {
    forall|i: int, j: int| 0 <= i < j < es.len() ==> lex_lt(#[trigger] es[i].id, #[trigger] es[j].id)
}

/// `es` lists exactly the entries of `m`, ascending by id.
pub open spec fn lists_map(es: Seq<RegionView>, m: Map<Seq<char>, RegionView>) -> bool {
    &&& sorted_by_id(es)
    &&& forall|k: Seq<char>| m.dom().contains(k) <==> exists|i: int| 0 <= i < es.len() && #[trigger] es[i].id == k
    &&& forall|i: int| 0 <= i < es.len() ==> m[#[trigger] es[i].id] == es[i]
}

/// What a catalogue holds: its regions ascending by id, and the ids that
/// have children.
pub struct CatalogView {
    pub entries: Seq<RegionView>,
    pub parents: Set<Seq<char>>,
}

/// In-memory region hierarchy.
pub struct RegionCatalog {
    regions: Vec<Region>,
    parents: Vec<String>,
}

impl View for RegionCatalog {
    type V = CatalogView;

    closed spec fn view(&self) -> CatalogView {
        CatalogView {
            entries: self.regions@.map_values(|r: Region| r@),
            parents: self.parents@.map_values(|p: String| p@).to_set(),
        }
    }
}

/// The summary of an entry: its id, name and parent, and whether it has children.
pub open spec fn summarizes(s: RegionSummary, e: RegionView, parents: Set<Seq<char>>) -> bool {
    &&& s.id@ == e.id
    &&& s.name@ == e.name
    &&& opt_view(s.parent) == e.parent
    &&& s.has_children == parents.contains(e.id)
}

fn clone_opt(o: &Option<String>) -> (r: Option<String>)
    ensures
        opt_view(r) == opt_view(*o),
{
    match o {
        Some(s) => Some(s.clone()),
        None => None,
    }
}

impl RegionCatalog {
    #[verifier::type_invariant]
    closed spec fn well_formed(self) -> bool {
        sorted_by_id(self.regions@.map_values(|r: Region| r@))
    }

    /// Builds the catalogue; a later region replaces an earlier one with the
    /// same id.
    pub fn new(regions: Vec<Region>) -> (c: RegionCatalog)
        ensures
            lists_map(c@.entries, region_map(regions@.map_values(|r: Region| r@))),
            c@.parents == parent_ids(regions@.map_values(|r: Region| r@)),
    {
        let ghost input = regions@.map_values(|r: Region| r@);
        let mut out: Vec<Region> = Vec::new();
        let mut parents: Vec<String> = Vec::new();
        proof {
            assert(input.take(0) =~= Seq::<RegionView>::empty());
            assert(parents@.map_values(|p: String| p@).to_set() =~= parent_ids(input.take(0)));
        }
        for r in it: regions
            invariant
                it.seq() == regions@,
                input == regions@.map_values(|r: Region| r@),
                lists_map(out@.map_values(|r: Region| r@), region_map(input.take(it.index() as int))),
                parents@.map_values(|p: String| p@).to_set() == parent_ids(input.take(it.index() as int)),
        {
            let ghost i = it.index();
            let ghost rv = r@;
            let ghost prev_in = input.take(i as int);
            proof {
                assert(it.seq()[i as int] == r);
                assert(input.take(i + 1) =~= prev_in.push(rv));
                assert(input.take(i + 1).drop_last() =~= prev_in);
            }
            match &r.parent {
                Some(p) => {
                    let ghost before = parents@.map_values(|q: String| q@);
                    parents.push(p.clone());
                    proof {
                        let now = parents@.map_values(|q: String| q@);
                        assert(now =~= before.push(p@));
                        let ids = parent_ids(input.take(i + 1));
                        assert forall|x: Seq<char>| now.to_set().contains(x) <==> ids.contains(x) by {
                            if now.to_set().contains(x) {
                                let k = choose|k: int| 0 <= k < now.len() && now[k] == x;
                                if k < before.len() {
                                    assert(before.contains(x));
                                    assert(parent_ids(prev_in).contains(x));
                                    let j = choose|j: int| 0 <= j < prev_in.len() && prev_in[j].parent == Some(x);
                                    assert(input.take(i + 1)[j] == prev_in[j]);
                                } else {
                                    assert(input.take(i + 1)[i as int] == rv);
                                }
                            }
                            if ids.contains(x) {
                                let t = input.take(i + 1);
                                let j = choose|j: int| 0 <= j < t.len() && #[trigger] t[j].parent == Some(x);
                                if j < i {
                                    assert(prev_in[j] == input.take(i + 1)[j]);
                                    assert(parent_ids(prev_in).contains(x));
                                    assert(before.to_set().contains(x));
                                    let k = choose|k: int| 0 <= k < before.len() && before[k] == x;
                                    assert(now[k] == x);
                                } else {
                                    assert(now[before.len() as int] == x);
                                }
                            }
                        }
                        assert(now.to_set() =~= ids);
                    }
                },
                None => {
                    proof {
                        let now = parents@.map_values(|q: String| q@);
                        let ids = parent_ids(input.take(i + 1));
                        assert forall|x: Seq<char>| ids.contains(x) <==> parent_ids(prev_in).contains(x) by {
                            if ids.contains(x) {
                                let t = input.take(i + 1);
                                let j = choose|j: int| 0 <= j < t.len() && #[trigger] t[j].parent == Some(x);
                                assert(j != i);
                                assert(prev_in[j] == input.take(i + 1)[j]);
                            }
                            if parent_ids(prev_in).contains(x) {
                                let j = choose|j: int| 0 <= j < prev_in.len() && prev_in[j].parent == Some(x);
                                assert(input.take(i + 1)[j] == prev_in[j]);
                            }
                        }
                        assert(ids =~= parent_ids(prev_in));
                    }
                },
            }
            Self::insert_sorted(&mut out, r, Ghost(region_map(prev_in)));
        }
        proof {
            assert(input.take(input.len() as int) =~= input);
        }
        let c = RegionCatalog { regions: out, parents };
        proof {
            assert(c@.entries == out@.map_values(|r: Region| r@));
        }
        c
    }

    /// Puts `r` into the id-sorted `out`, replacing an entry with the same id.
    fn insert_sorted(out: &mut Vec<Region>, r: Region, Ghost(m): Ghost<Map<Seq<char>, RegionView>>)
        requires
            lists_map(old(out)@.map_values(|x: Region| x@), m),
        ensures
            lists_map(final(out)@.map_values(|x: Region| x@), m.insert(r@.id, r@)),
    {
        let ghost es = out@.map_values(|x: Region| x@);
        let key = chars_of(r.id.as_str());
        let n = out.len();
        let mut p: usize = 0;
        while p < n && chars_lt(&chars_of(out[p].id.as_str()), &key)
            invariant
                n == out@.len(),
                es == out@.map_values(|x: Region| x@),
                key@ == r@.id,
                p <= n,
                forall|j: int| 0 <= j < p ==> lex_lt(#[trigger] es[j].id, r@.id),
            decreases n - p,
        {
            p = p + 1;
        }
        let ghost m2 = m.insert(r@.id, r@);
        if p < n && str_eq(out[p].id.as_str(), r.id.as_str()) {
            out.set(p, r);
            proof {
                let es2 = out@.map_values(|x: Region| x@);
                assert(es2 =~= es.update(p as int, r@));
                assert forall|a: int, b: int| 0 <= a < b < es2.len() implies lex_lt(
                    #[trigger] es2[a].id,
                    #[trigger] es2[b].id,
                ) by {
                    assert(es[a].id == es2[a].id || a == p);
                    assert(es[b].id == es2[b].id || b == p);
                    assert(es[p as int].id == r@.id);
                }
                assert forall|k: Seq<char>| m2.dom().contains(k) <==> exists|j: int|
                    0 <= j < es2.len() && #[trigger] es2[j].id == k by {
                    if m2.dom().contains(k) && k != r@.id {
                        let j = choose|j: int| 0 <= j < es.len() && es[j].id == k;
                        assert(es2[j].id == k);
                    }
                    if m2.dom().contains(k) && k == r@.id {
                        assert(es2[p as int].id == k);
                    }
                    if exists|j: int| 0 <= j < es2.len() && #[trigger] es2[j].id == k {
                        let j = choose|j: int| 0 <= j < es2.len() && es2[j].id == k;
                        if j != p {
                            assert(es[j].id == k);
                        }
                    }
                }
                assert forall|j: int| 0 <= j < es2.len() implies m2[#[trigger] es2[j].id] == es2[j] by {
                    if j != p {
                        assert(es2[j] == es[j]);
                        if es[j].id == r@.id {
                            if j < p {
                                lemma_lex_irreflexive(r@.id);
                            } else {
                                lemma_lex_irreflexive(r@.id);
                            }
                        }
                    }
                }
            }
        } else {
            proof {
                if p < n {
                    lemma_lex_total(es[p as int].id, r@.id);
                }
            }
            out.insert(p, r);
            proof {
                let es2 = out@.map_values(|x: Region| x@);
                assert(es2 =~= es.insert(p as int, r@));
                assert forall|a: int, b: int| 0 <= a < b < es2.len() implies lex_lt(
                    #[trigger] es2[a].id,
                    #[trigger] es2[b].id,
                ) by {
                    if a < p && b == p {
                    } else if a < p && b > p {
                        assert(es2[b] == es[b - 1]);
                        if b - 1 == p {
                        } else {
                            assert(lex_lt(es[p as int].id, es[b - 1].id));
                            lemma_lex_transitive(r@.id, es[p as int].id, es[b - 1].id);
                        }
                        lemma_lex_transitive(es[a].id, r@.id, es[b - 1].id);
                    } else if a == p {
                        assert(es2[b] == es[b - 1]);
                        if b - 1 > p {
                            lemma_lex_transitive(r@.id, es[p as int].id, es[b - 1].id);
                        }
                    } else if a > p {
                        assert(es2[a] == es[a - 1]);
                        assert(es2[b] == es[b - 1]);
                    }
                }
                assert forall|j: int| 0 <= j < es.len() implies #[trigger] es[j].id != r@.id by {
                    if j < p {
                        lemma_lex_irreflexive(r@.id);
                    } else if j == p {
                    } else {
                        lemma_lex_irreflexive(r@.id);
                        lemma_lex_transitive(r@.id, es[p as int].id, es[j].id);
                    }
                }
                assert forall|k: Seq<char>| m2.dom().contains(k) <==> exists|j: int|
                    0 <= j < es2.len() && #[trigger] es2[j].id == k by {
                    if m2.dom().contains(k) && k != r@.id {
                        let j = choose|j: int| 0 <= j < es.len() && es[j].id == k;
                        if j < p {
                            assert(es2[j].id == k);
                        } else {
                            assert(es2[j + 1].id == k);
                        }
                    }
                    if m2.dom().contains(k) && k == r@.id {
                        assert(es2[p as int].id == k);
                    }
                    if exists|j: int| 0 <= j < es2.len() && #[trigger] es2[j].id == k {
                        let j = choose|j: int| 0 <= j < es2.len() && es2[j].id == k;
                        if j < p {
                            assert(es[j].id == k);
                        } else if j > p {
                            assert(es[j - 1].id == k);
                        }
                    }
                }
                assert forall|j: int| 0 <= j < es2.len() implies m2[#[trigger] es2[j].id] == es2[j] by {
                    if j < p {
                        assert(es2[j] == es[j]);
                    } else if j > p {
                        assert(es2[j] == es[j - 1]);
                    }
                }
            }
        }
    }

    /// The region with the given id, if any.
    pub fn get(&self, id: &str) -> (r: Option<&Region>)
        ensures
            match r {
                Some(x) => x@.id == id@ && self@.entries.contains(x@),
                None => forall|i: int| 0 <= i < self@.entries.len() ==> #[trigger] self@.entries[i].id != id@,
            },
    {
        let n = self.regions.len();
        for i in 0..n
            invariant
                n == self.regions@.len(),
                self@.entries == self.regions@.map_values(|r: Region| r@),
                forall|j: int| 0 <= j < i ==> #[trigger] self@.entries[j].id != id@,
        {
            if str_eq(self.regions[i].id.as_str(), id) {
                proof {
                    assert(self@.entries[i as int] == self.regions@[i as int]@);
                }
                return Some(&self.regions[i]);
            }
        }
        None
    }

    /// Whether some region names `id` as its parent.
    pub fn has_children(&self, id: &str) -> (b: bool)
        ensures
            b == self@.parents.contains(id@),
    {
        let ghost ps = self.parents@.map_values(|p: String| p@);
        let n = self.parents.len();
        for i in 0..n
            invariant
                n == self.parents@.len(),
                ps == self.parents@.map_values(|p: String| p@),
                self@.parents == ps.to_set(),
                forall|j: int| 0 <= j < i ==> #[trigger] ps[j] != id@,
        {
            if str_eq(self.parents[i].as_str(), id) {
                proof {
                    assert(ps[i as int] == id@);
                    assert(ps.contains(id@));
                }
                return true;
            }
        }
        false
    }

    /// The number of regions.
    pub fn len(&self) -> (n: usize)
        ensures
            n == self@.entries.len(),
    {
        self.regions.len()
    }

    /// Whether the catalogue holds no region.
    pub fn is_empty(&self) -> (b: bool)
        ensures
            b == (self@.entries.len() == 0),
    {
        self.regions.len() == 0
    }

    /// All regions as summaries, ascending by id.
    pub fn summaries(&self) -> (out: Vec<RegionSummary>)
        ensures
            sorted_by_id(self@.entries),
            out@.len() == self@.entries.len(),
            forall|i: int| 0 <= i < out@.len() ==> summarizes(#[trigger] out@[i], self@.entries[i], self@.parents),
    {
        proof {
            use_type_invariant(self);
        }
        let n = self.regions.len();
        let mut out: Vec<RegionSummary> = Vec::new();
        for i in 0..n
            invariant
                n == self.regions@.len(),
                self@.entries == self.regions@.map_values(|r: Region| r@),
                out@.len() == i,
                forall|j: int| 0 <= j < i ==> summarizes(#[trigger] out@[j], self@.entries[j], self@.parents),
        {
            let r = &self.regions[i];
            let has_children = self.has_children(r.id.as_str());
            out.push(RegionSummary {
                id: r.id.clone(),
                name: r.name.clone(),
                parent: clone_opt(&r.parent),
                has_children,
            });
        }
        out
    }
}

} // verus!
