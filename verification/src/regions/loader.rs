//! Turning the features of the Geofabrik index into a catalogue. The server
//! reads and parses the GeoJSON file; each feature arrives here as the plain
//! fields the catalogue needs.
use vstd::prelude::*;
use crate::regions::{Region, RegionCatalog, RegionView, opt_view, region_map, parent_ids, lists_map};
use crate::text::push_str;

verus! {

/// Failure to load the region index at the given path.
#[derive(Debug)]
pub enum RegionError {
    Io(String, String),
    Parse(String, String),
    Empty(String),
}

impl RegionError {
    /// The human-readable message of the error.
    pub fn message(&self) -> (m: String)
        ensures
            m@ == match self {
                RegionError::Io(p, e) => "failed to read region index "@ + p@ + ": "@ + e@,
                RegionError::Parse(p, e) => "failed to parse region index "@ + p@ + ": "@ + e@,
                RegionError::Empty(p) => "region index "@ + p@ + " is empty"@,
            },
    {
        match self {
            RegionError::Io(p, e) => {
                let mut m = String::from_str("failed to read region index ");
                push_str(&mut m, p.as_str());
                push_str(&mut m, ": ");
                push_str(&mut m, e.as_str());
                m
            },
            RegionError::Parse(p, e) => {
                let mut m = String::from_str("failed to parse region index ");
                push_str(&mut m, p.as_str());
                push_str(&mut m, ": ");
                push_str(&mut m, e.as_str());
                m
            },
            RegionError::Empty(p) => {
                let mut m = String::from_str("region index ");
                push_str(&mut m, p.as_str());
                push_str(&mut m, " is empty");
                m
            },
        }
    }
}

/// One feature of the index: its `id`, `name` and `parent` properties when
/// they are strings (`None` when absent, not strings, or the feature has no
/// properties), and its geometry as GeoJSON text when it has one.
pub struct IndexFeature {
    pub id: Option<String>,
    pub name: Option<String>,
    pub parent: Option<String>,
    pub geometry: Option<String>,
}

/// The fields of a feature as text: `(id, name, parent, geometry)`.
pub open spec fn feature_fields(f: IndexFeature) -> (
    Option<Seq<char>>,
    Option<Seq<char>>,
    Option<Seq<char>>,
    Option<Seq<char>>,
) {
    (opt_view(f.id), opt_view(f.name), opt_view(f.parent), opt_view(f.geometry))
}

/// What the geojson crate reads from the text of a region index: the fields
/// `(id, name, parent, geometry)` of each feature of the FeatureCollection,
/// in order, or the text of the parse error when the text is not GeoJSON or
/// not a FeatureCollection.
pub uninterp spec fn parsed_index(raw: Seq<char>) -> Result<
    Seq<(Option<Seq<char>>, Option<Seq<char>>, Option<Seq<char>>, Option<Seq<char>>)>,
    Seq<char>,
>;

/// Parses the text of a region index with the geojson crate
/// (`str::parse::<geojson::GeoJson>` then `FeatureCollection::try_from`),
/// and reads each feature's `id`, `name` and `parent` string properties
/// (`Feature::property` with `Value::as_str`) and its geometry rendered by
/// `serde_json::to_string`. The result is claimed to be `parsed_index` of
/// the text, which depends on the text alone.
#[verifier::external_body]
fn parse_index_features(raw: &str) -> (r: Result<Vec<IndexFeature>, String>)
    ensures
        match parsed_index(raw@) {
            Ok(fs) => r matches Ok(v) && v@.map_values(|f: IndexFeature| feature_fields(f)) == fs,
            Err(e) => r matches Err(m) && m@ == e,
        },
{
    let text = |f: &geojson::Feature, k: &str| f.property(k).and_then(|v| v.as_str()).map(String::from);
    let gj = raw.parse::<geojson::GeoJson>().map_err(|e| e.to_string())?;
    let fc = geojson::FeatureCollection::try_from(gj).map_err(|e| e.to_string())?;
    Ok(fc.features.iter().map(|f| IndexFeature {
        id: text(f, "id"),
        name: text(f, "name"),
        parent: text(f, "parent"),
        geometry: f.geometry.as_ref().and_then(|g| serde_json::to_string(g).ok()),
    }).collect())
}

/// The region a feature describes: features without an id or geometry are
/// skipped; the name defaults to the id.
pub open spec fn feature_region(
    f: (Option<Seq<char>>, Option<Seq<char>>, Option<Seq<char>>, Option<Seq<char>>),
) -> Option<RegionView> {
    match (f.0, f.3) {
        (Some(id), Some(g)) => Some(
            RegionView {
                id: id,
                name: match f.1 {
                    Some(n) => n,
                    None => id,
                },
                parent: f.2,
                geometry: g,
            },
        ),
        _ => None,
    }
}

/// The regions the features describe, in order.
pub open spec fn feature_regions(
    fs: Seq<(Option<Seq<char>>, Option<Seq<char>>, Option<Seq<char>>, Option<Seq<char>>)>,
) -> Seq<RegionView>
    decreases fs.len(),
{
    if fs.len() == 0 {
        Seq::<RegionView>::empty()
    } else {
        let prev = feature_regions(fs.drop_last());
        match feature_region(fs.last()) {
            Some(r) => prev.push(r),
            None => prev,
        }
    }
}

/// The regions of the index's features, in order.
pub fn regions_from_features(features: Vec<IndexFeature>) -> (rs: Vec<Region>)
    ensures
        rs@.map_values(|r: Region| r@) == feature_regions(
            features@.map_values(|f: IndexFeature| feature_fields(f)),
        ),
{
    let ghost fs = features@.map_values(|f: IndexFeature| feature_fields(f));
    let mut rs: Vec<Region> = Vec::new();
    for f in it: features
        invariant
            it.seq() == features@,
            fs == features@.map_values(|f: IndexFeature| feature_fields(f)),
            rs@.map_values(|r: Region| r@) == feature_regions(fs.take(it.index() as int)),
    {
        let ghost i = it.index();
        proof {
            assert(it.seq()[i as int] == f);
            assert(fs.take(i + 1).drop_last() =~= fs.take(i as int));
            assert(fs.take(i + 1).last() == feature_fields(f));
        }
        let ghost before = rs@.map_values(|r: Region| r@);
        let IndexFeature { id, name, parent, geometry } = f;
        match (id, geometry) {
            (Some(id), Some(geometry)) => {
                let name = match name {
                    Some(n) => n,
                    None => id.clone(),
                };
                rs.push(Region { id, name, parent, geometry });
                proof {
                    assert(rs@.map_values(|r: Region| r@) =~= before.push(
                        feature_region(fs[i as int])->0,
                    ));
                }
            },
            _ => {},
        }
    }
    proof {
        assert(fs.take(fs.len() as int) =~= fs);
    }
    rs
}

impl RegionCatalog {
    /// The catalogue of the index at `path`: its features' regions, or
    /// `RegionError::Empty` when no feature yields a region.
    pub fn from_features(path: &str, features: Vec<IndexFeature>) -> (r: Result<RegionCatalog, RegionError>)
        ensures
            ({
                let regions = feature_regions(features@.map_values(|f: IndexFeature| feature_fields(f)));
                &&& regions.len() == 0 ==> (r matches Err(RegionError::Empty(p)) && p@ == path@)
                &&& regions.len() > 0 ==> (r matches Ok(c) && lists_map(c@.entries, region_map(regions))
                    && c@.parents == parent_ids(regions))
            }),
    {
        let regions = regions_from_features(features);
        if regions.len() == 0 {
            return Err(RegionError::Empty(String::from_str(path)));
        }
        Ok(RegionCatalog::new(regions))
    }

    /// The catalogue of the region index at `path` whose text is `raw` (the
    /// Geofabrik index-v1 GeoJSON, a FeatureCollection with `id`, `parent`
    /// and `name` properties): a parse error when the text is not a GeoJSON
    /// FeatureCollection, otherwise the catalogue of its features (features
    /// without an id or geometry are skipped), or `RegionError::Empty` when
    /// none yields a region.
    pub fn from_index_text(path: &str, raw: &str) -> (r: Result<RegionCatalog, RegionError>)
        ensures
            match parsed_index(raw@) {
                Err(e) => r matches Err(RegionError::Parse(p, m)) && p@ == path@ && m@ == e,
                Ok(fs) => {
                    let regions = feature_regions(fs);
                    &&& regions.len() == 0 ==> (r matches Err(RegionError::Empty(p)) && p@ == path@)
                    &&& regions.len() > 0 ==> (r matches Ok(c) && lists_map(c@.entries, region_map(regions))
                        && c@.parents == parent_ids(regions))
                },
            },
    {
        match parse_index_features(raw) {
            Err(e) => Err(RegionError::Parse(String::from_str(path), e)),
            Ok(features) => RegionCatalog::from_features(path, features),
        }
    }
}

/// Every feature with both an id and a geometry becomes a region, in the
/// features' order, with that id, geometry and parent, and its name or, when
/// it has none, its id; features missing either are skipped, and no region
/// comes from anywhere else.
pub proof fn lemma_feature_regions_exact(
    fs: Seq<(Option<Seq<char>>, Option<Seq<char>>, Option<Seq<char>>, Option<Seq<char>>)>,
)
    ensures
        forall|j: int| 0 <= j < fs.len() && (#[trigger] fs[j]).0 is Some && fs[j].3 is Some ==> feature_regions(
            fs,
        ).contains(
            RegionView {
                id: fs[j].0->0,
                name: if fs[j].1 is Some { fs[j].1->0 } else { fs[j].0->0 },
                parent: fs[j].2,
                geometry: fs[j].3->0,
            },
        ),
        forall|k: int| #![trigger feature_regions(fs)[k]] 0 <= k < feature_regions(fs).len() ==> exists|j: int|
            0 <= j < fs.len() && (#[trigger] fs[j]).0 == Some(feature_regions(fs)[k].id) && fs[j].3 == Some(
                feature_regions(fs)[k].geometry,
            ) && fs[j].2 == feature_regions(fs)[k].parent && feature_regions(fs)[k].name == (if fs[j].1 is Some {
                fs[j].1->0
            } else {
                fs[j].0->0
            }),
        feature_regions(fs).len() <= fs.len(),
    decreases fs.len(),
{
    if fs.len() > 0 {
        let prev = fs.drop_last();
        lemma_feature_regions_exact(prev);
        let r = feature_regions(fs);
        let rp = feature_regions(prev);
        let f = fs.last();
        if f.0 is Some && f.3 is Some {
            assert(r == rp.push(feature_region(f)->0));
        } else {
            assert(r == rp);
        }
        assert forall|j: int| 0 <= j < fs.len() && (#[trigger] fs[j]).0 is Some && fs[j].3 is Some implies r.contains(
            RegionView {
                id: fs[j].0->0,
                name: if fs[j].1 is Some { fs[j].1->0 } else { fs[j].0->0 },
                parent: fs[j].2,
                geometry: fs[j].3->0,
            },
        ) by {
            if j < fs.len() - 1 {
                assert(prev[j] == fs[j]);
                let x = RegionView {
                    id: fs[j].0->0,
                    name: if fs[j].1 is Some { fs[j].1->0 } else { fs[j].0->0 },
                    parent: fs[j].2,
                    geometry: fs[j].3->0,
                };
                assert(rp.contains(x));
                let k = choose|k: int| 0 <= k < rp.len() && rp[k] == x;
                assert(r[k] == x);
            } else {
                assert(r[r.len() - 1] == feature_region(f)->0);
            }
        }
        assert forall|k: int| #![trigger r[k]] 0 <= k < r.len() implies exists|j: int|
            0 <= j < fs.len() && (#[trigger] fs[j]).0 == Some(r[k].id) && fs[j].3 == Some(r[k].geometry)
                && fs[j].2 == r[k].parent && r[k].name == (if fs[j].1 is Some {
                fs[j].1->0
            } else {
                fs[j].0->0
            }) by {
            if k < rp.len() {
                assert(r[k] == rp[k]);
                let j = choose|j: int|
                    0 <= j < prev.len() && (#[trigger] prev[j]).0 == Some(rp[k].id) && prev[j].3 == Some(
                        rp[k].geometry,
                    ) && prev[j].2 == rp[k].parent && rp[k].name == (if prev[j].1 is Some {
                        prev[j].1->0
                    } else {
                        prev[j].0->0
                    });
                assert(fs[j] == prev[j]);
            } else {
                assert(fs[fs.len() - 1] == f);
            }
        }
    }
}

} // verus!
