//! Validation of a user-supplied extract region. The geometry is read by the
//! server into a summary of plain values (ring sizes, whether every
//! coordinate is in range, whether the rings are well formed); the order of
//! the checks and the error each one yields are decided here.
use vstd::prelude::*;
use crate::text::{concat, push_str, push_decimal, decimal};

verus! {

/// Why a region geometry was rejected.
#[derive(Debug)]
pub enum ValidationError {
    WrongType,
    Empty,
    /// The vertex count and the maximum allowed.
    TooManyVertices(usize, usize),
    OutOfRange,
    Invalid(String),
}

impl ValidationError {
    /// The human-readable message of the error.
    pub fn message(&self) -> (m: String)
        ensures
            m@ == match self {
                ValidationError::WrongType => "geometry must be a Polygon or MultiPolygon"@,
                ValidationError::Empty => "geometry is empty"@,
                ValidationError::TooManyVertices(n, max) => "geometry has "@ + decimal(*n as nat)
                    + " vertices, the maximum is "@ + decimal(*max as nat),
                ValidationError::OutOfRange => "coordinates out of range: longitude must be within [-180, 180] and latitude within [-90, 90]"@,
                ValidationError::Invalid(e) => "invalid geometry: "@ + e@,
            },
    {
        match self {
            ValidationError::WrongType => String::from_str("geometry must be a Polygon or MultiPolygon"),
            ValidationError::Empty => String::from_str("geometry is empty"),
            ValidationError::TooManyVertices(n, max) => {
                let mut m = String::from_str("geometry has ");
                push_decimal(&mut m, *n as u64);
                push_str(&mut m, " vertices, the maximum is ");
                push_decimal(&mut m, *max as u64);
                m
            },
            ValidationError::OutOfRange => String::from_str(
                "coordinates out of range: longitude must be within [-180, 180] and latitude within [-90, 90]",
            ),
            ValidationError::Invalid(e) => concat("invalid geometry: ", e.as_str()),
        }
    }
}

/// The GeoJSON type of a geometry, as far as validation cares.
#[derive(Debug, Clone, Copy, PartialEq, Eq, Structural)]
pub enum GeometryKind {
    Polygon,
    MultiPolygon,
    Other,
}

/// One polygon of a geometry: the vertex count of its exterior ring and of
/// each interior ring, and whether every coordinate has a longitude within
/// [-180, 180] and a latitude within [-90, 90].
pub struct PolygonSummary {
    pub exterior: usize,
    pub interiors: Vec<usize>,
    pub in_range: bool,
}

/// What validation reads of a geometry: its type; its polygons, or the
/// reason they could not be read from the GeoJSON; and whether the rings are
/// closed, non-self-intersecting and correctly nested.
pub struct GeometrySummary {
    pub kind: GeometryKind,
    pub polygons: Result<Vec<PolygonSummary>, String>,
    pub well_formed: bool,
}

/// Sum of a sequence of counts.
pub open spec fn sum_counts(s: Seq<usize>) -> nat
    decreases s.len(),
{
    if s.len() == 0 { 0 } else { sum_counts(s.drop_last()) + s.last() as nat }
}

/// The number of vertices of a polygon, over all its rings.
pub open spec fn polygon_vertices(p: PolygonSummary) -> nat {
    p.exterior as nat + sum_counts(p.interiors@)
}

/// The number of vertices of all polygons.
pub open spec fn total_vertices(ps: Seq<PolygonSummary>) -> nat
    decreases ps.len(),
{
    if ps.len() == 0 { 0 } else { total_vertices(ps.drop_last()) + polygon_vertices(ps.last()) }
}

/// The message for rings that are not closed, cross themselves or are not
/// nested properly.
pub open spec fn ill_formed_message() -> Seq<char> {
    "rings must be closed, non-self-intersecting and correctly nested"@
}

/// `ValidationError` with its message text as a sequence of characters.
pub enum ValidationErrorView {
    WrongType,
    Empty,
    TooManyVertices(nat, usize),
    OutOfRange,
    Invalid(Seq<char>),
}

impl View for ValidationError {
    type V = ValidationErrorView;

    open spec fn view(&self) -> ValidationErrorView {
        match self {
            ValidationError::WrongType => ValidationErrorView::WrongType,
            ValidationError::Empty => ValidationErrorView::Empty,
            ValidationError::TooManyVertices(n, m) => ValidationErrorView::TooManyVertices(*n as nat, *m),
            ValidationError::OutOfRange => ValidationErrorView::OutOfRange,
            ValidationError::Invalid(e) => ValidationErrorView::Invalid(e@),
        }
    }
}

/// A geometry with no polygon, or whose polygons all have empty exteriors.
pub open spec fn is_empty_geometry(ps: Seq<PolygonSummary>) -> bool {
    ps.len() == 0 || (forall|i: int| 0 <= i < ps.len() ==> #[trigger] ps[i].exterior == 0)
}

/// Every coordinate of every polygon is within range.
pub open spec fn all_in_range(ps: Seq<PolygonSummary>) -> bool {
    forall|i: int| 0 <= i < ps.len() ==> #[trigger] ps[i].in_range
}

/// The outcome of validating a geometry against a vertex cap, checking in
/// this order: the type, the GeoJSON coordinates, emptiness, the vertex
/// count, the coordinate ranges, then the ring structure.
pub open spec fn validation_outcome(g: GeometrySummary, max_vertices: usize) -> Result<(), ValidationErrorView> {
    match g.kind {
        GeometryKind::Other => Err(ValidationErrorView::WrongType),
        _ => match g.polygons {
            Err(e) => Err(ValidationErrorView::Invalid(e@)),
            Ok(ps) => {
                let ps = ps@;
                if is_empty_geometry(ps) {
                    Err(ValidationErrorView::Empty)
                } else if total_vertices(ps) > max_vertices {
                    Err(ValidationErrorView::TooManyVertices(total_vertices(ps), max_vertices))
                } else if !all_in_range(ps) {
                    Err(ValidationErrorView::OutOfRange)
                } else if !g.well_formed {
                    Err(ValidationErrorView::Invalid(ill_formed_message()))
                } else {
                    Ok(())
                }
            },
        },
    }
}

/// A validation result with the error by its view.
pub open spec fn outcome_view(r: Result<(), ValidationError>) -> Result<(), ValidationErrorView> {
    match r {
        Ok(()) => Ok(()),
        Err(e) => Err(e@),
    }
}

/// All vertex counts of a geometry's polygons fit in a `usize` when summed.
pub open spec fn vertex_count_fits(g: GeometrySummary) -> bool {
    match g.polygons {
        Ok(ps) => total_vertices(ps@) <= usize::MAX,
        Err(_) => true,
    }
}

proof fn lemma_sum_counts_prefix(s: Seq<usize>, i: int)
    requires
        0 <= i <= s.len(),
    ensures
        sum_counts(s.take(i)) <= sum_counts(s),
    decreases s.len() - i,
{
    if i < s.len() {
        lemma_sum_counts_prefix(s, i + 1);
        assert(s.take(i + 1).drop_last() =~= s.take(i));
    } else {
        assert(s.take(i) =~= s);
    }
}

proof fn lemma_total_vertices_prefix(ps: Seq<PolygonSummary>, i: int)
    requires
        0 <= i <= ps.len(),
    ensures
        total_vertices(ps.take(i)) <= total_vertices(ps),
    decreases ps.len() - i,
{
    if i < ps.len() {
        lemma_total_vertices_prefix(ps, i + 1);
        assert(ps.take(i + 1).drop_last() =~= ps.take(i));
    } else {
        assert(ps.take(i) =~= ps);
    }
}

fn polygon_vertex_count(p: &PolygonSummary) -> (n: usize)
    requires
        polygon_vertices(*p) <= usize::MAX,
    ensures
        n == polygon_vertices(*p),
{
    let mut n: usize = p.exterior;
    let k = p.interiors.len();
    for j in 0..k
        invariant
            k == p.interiors@.len(),
            polygon_vertices(*p) <= usize::MAX,
            n == p.exterior + sum_counts(p.interiors@.take(j as int)),
    {
        proof {
            assert(p.interiors@.take(j + 1).drop_last() =~= p.interiors@.take(j as int));
            lemma_sum_counts_prefix(p.interiors@, j + 1);
        }
        n = n + p.interiors[j];
    }
    proof {
        assert(p.interiors@.take(k as int) =~= p.interiors@);
    }
    n
}

/// Validates a region geometry (see `validation_outcome` for the order of
/// the checks).
pub fn check_geometry(g: &GeometrySummary, max_vertices: usize) -> (r: Result<(), ValidationError>)
    requires
        vertex_count_fits(*g),
    ensures
        outcome_view(r) == validation_outcome(*g, max_vertices),
{
    if g.kind == GeometryKind::Other {
        return Err(ValidationError::WrongType);
    }
    let ps = match &g.polygons {
        Err(e) => {
            return Err(ValidationError::Invalid(e.clone()));
        },
        Ok(ps) => ps,
    };
    let n = ps.len();
    let mut any_exterior = false;
    for i in 0..n
        invariant
            n == ps@.len(),
            any_exterior <==> exists|j: int| 0 <= j < i && #[trigger] ps@[j].exterior != 0,
    {
        if ps[i].exterior != 0 {
            any_exterior = true;
        }
    }
    if n == 0 || !any_exterior {
        return Err(ValidationError::Empty);
    }
    let mut total: usize = 0;
    for i in 0..n
        invariant
            n == ps@.len(),
            total_vertices(ps@) <= usize::MAX,
            total == total_vertices(ps@.take(i as int)),
    {
        proof {
            assert(ps@.take(i + 1).drop_last() =~= ps@.take(i as int));
            lemma_total_vertices_prefix(ps@, i + 1);
        }
        let c = polygon_vertex_count(&ps[i]);
        total = total + c;
    }
    proof {
        assert(ps@.take(n as int) =~= ps@);
    }
    if total > max_vertices {
        return Err(ValidationError::TooManyVertices(total, max_vertices));
    }
    let mut in_range = true;
    for i in 0..n
        invariant
            n == ps@.len(),
            in_range <==> forall|j: int| 0 <= j < i ==> #[trigger] ps@[j].in_range,
    {
        if !ps[i].in_range {
            in_range = false;
        }
    }
    if !in_range {
        return Err(ValidationError::OutOfRange);
    }
    if !g.well_formed {
        return Err(ValidationError::Invalid(String::from_str(
            "rings must be closed, non-self-intersecting and correctly nested",
        )));
    }
    Ok(())
}

/// What validation decides, check by check: a non-polygonal geometry is the
/// wrong type; coordinates the GeoJSON reader could not read are invalid
/// with its message; a geometry without a polygon whose exterior has a
/// vertex is empty; more vertices than the cap (counted over every ring of
/// every polygon) is too many; a coordinate out of range in any polygon, the
/// first or any later one, is out of range; and rings that are not well
/// formed are invalid. A geometry passes exactly when none of these holds.
pub proof fn lemma_validation_checks(g: GeometrySummary, max_vertices: usize)
    ensures
        ({
            let r = validation_outcome(g, max_vertices);
            &&& g.kind == GeometryKind::Other ==> r == Err::<(), ValidationErrorView>(ValidationErrorView::WrongType)
            &&& g.kind != GeometryKind::Other ==> match g.polygons {
                Err(e) => r == Err::<(), ValidationErrorView>(ValidationErrorView::Invalid(e@)),
                Ok(ps) => {
                    let ps = ps@;
                    let nonempty = exists|i: int| 0 <= i < ps.len() && #[trigger] ps[i].exterior != 0;
                    let total = total_vertices(ps);
                    let all_in = forall|i: int| 0 <= i < ps.len() ==> #[trigger] ps[i].in_range;
                    &&& !nonempty ==> r == Err::<(), ValidationErrorView>(ValidationErrorView::Empty)
                    &&& (nonempty && total > max_vertices) ==> r == Err::<(), ValidationErrorView>(
                        ValidationErrorView::TooManyVertices(total, max_vertices),
                    )
                    &&& (nonempty && total <= max_vertices && !all_in) ==> r == Err::<
                        (),
                        ValidationErrorView,
                    >(ValidationErrorView::OutOfRange)
                    &&& (nonempty && total <= max_vertices && all_in && !g.well_formed) ==> r
                        == Err::<(), ValidationErrorView>(
                        ValidationErrorView::Invalid(
                            "rings must be closed, non-self-intersecting and correctly nested"@,
                        ),
                    )
                    &&& (r is Ok <==> (nonempty && total <= max_vertices && all_in && g.well_formed))
                },
            }
        }),
{
}

/// The vertex count of a geometry grows by exactly the vertices of every
/// ring of a polygon added to it, and no polygon has more vertices than the
/// whole geometry.
pub proof fn lemma_total_vertices_counts_every_ring(ps: Seq<PolygonSummary>, p: PolygonSummary)
    ensures
        total_vertices(ps.push(p)) == total_vertices(ps) + p.exterior + sum_counts(p.interiors@),
        sum_counts(p.interiors@.push(0usize)) == sum_counts(p.interiors@),
        forall|i: int| 0 <= i < ps.len() ==> #[trigger] ps[i].exterior <= total_vertices(ps),
    decreases ps.len(),
{
    assert(ps.push(p).drop_last() =~= ps);
    assert(p.interiors@.push(0usize).drop_last() =~= p.interiors@);
    if ps.len() > 0 {
        lemma_total_vertices_counts_every_ring(ps.drop_last(), ps.last());
        assert(ps.drop_last().push(ps.last()) =~= ps);
        assert forall|i: int| 0 <= i < ps.len() implies #[trigger] ps[i].exterior <= total_vertices(ps) by {
            if i < ps.len() - 1 {
                assert(ps.drop_last()[i] == ps[i]);
            }
        }
    }
}

} // verus!
