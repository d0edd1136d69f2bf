use std::time::Duration;

use pmtile_tool::extract::estimate::Estimate;
use pmtile_tool::extract::validate::{
    check_geometry, GeometryKind, GeometrySummary, PolygonSummary, ValidationError,
};
use pmtile_tool::extract::{stderr_tail, ExtractError, GoPmtilesExtractor, TimeSpan};

fn square(in_range: bool) -> PolygonSummary {
    PolygonSummary { exterior: 5, interiors: vec![], in_range }
}

fn polygon(p: PolygonSummary, well_formed: bool) -> GeometrySummary {
    GeometrySummary { kind: GeometryKind::Polygon, polygons: Ok(vec![p]), well_formed }
}

#[test]
fn accepts_simple_polygon() {
    assert!(check_geometry(&polygon(square(true), true), 1000).is_ok());
}

#[test]
fn rejects_non_polygon() {
    let g = GeometrySummary { kind: GeometryKind::Other, polygons: Ok(vec![]), well_formed: true };
    assert!(matches!(check_geometry(&g, 1000), Err(ValidationError::WrongType)));
}

#[test]
fn rejects_too_many_vertices() {
    assert!(matches!(
        check_geometry(&polygon(square(true), true), 4),
        Err(ValidationError::TooManyVertices(5, 4))
    ));
}

#[test]
fn rejects_out_of_range() {
    let p = PolygonSummary { exterior: 4, interiors: vec![], in_range: false };
    assert!(matches!(
        check_geometry(&polygon(p, true), 1000),
        Err(ValidationError::OutOfRange)
    ));
}

#[test]
fn rejects_self_intersection() {
    assert!(matches!(
        check_geometry(&polygon(square(true), false), 1000),
        Err(ValidationError::Invalid(_))
    ));
}

#[test]
fn rejects_empty() {
    let g = GeometrySummary { kind: GeometryKind::MultiPolygon, polygons: Ok(vec![]), well_formed: true };
    assert!(matches!(check_geometry(&g, 1000), Err(ValidationError::Empty)));
    let g = GeometrySummary {
        kind: GeometryKind::MultiPolygon,
        polygons: Ok(vec![PolygonSummary { exterior: 0, interiors: vec![4], in_range: true }]),
        well_formed: true,
    };
    assert!(matches!(check_geometry(&g, 1000), Err(ValidationError::Empty)));
}

#[test]
fn vertex_count_includes_holes_and_all_polygons() {
    let g = GeometrySummary {
        kind: GeometryKind::MultiPolygon,
        polygons: Ok(vec![
            PolygonSummary { exterior: 5, interiors: vec![4, 4], in_range: false },
            PolygonSummary { exterior: 5, interiors: vec![], in_range: true },
        ]),
        well_formed: true,
    };
    match check_geometry(&g, 17) {
        Err(e) => assert_eq!(e.message(), "geometry has 18 vertices, the maximum is 17"),
        Ok(()) => panic!("accepted"),
    }
    assert!(matches!(check_geometry(&g, 18), Err(ValidationError::OutOfRange)));
}

#[test]
fn unreadable_coordinates_are_invalid() {
    let g = GeometrySummary {
        kind: GeometryKind::Polygon,
        polygons: Err("bad position".into()),
        well_formed: false,
    };
    match check_geometry(&g, 10) {
        Err(e) => assert_eq!(e.message(), "invalid geometry: bad position"),
        Ok(()) => panic!("accepted"),
    }
    assert_eq!(
        ValidationError::Invalid(
            "rings must be closed, non-self-intersecting and correctly nested".into()
        )
        .message(),
        "invalid geometry: rings must be closed, non-self-intersecting and correctly nested"
    );
}

#[test]
fn estimate_bytes_saturate() {
    let e = Estimate::from_tiles(341, 100);
    assert_eq!(e.tiles, 341);
    assert_eq!(e.bytes, 34100);
    assert_eq!(Estimate::from_tiles(u64::MAX, 2).bytes, u64::MAX);
}

#[test]
fn extract_error_messages() {
    let e = ExtractError::Failed { exit_code: Some(1), stderr_tail: "boom".into() };
    assert_eq!(e.message(), "pmtiles extract failed (exit Some(1)): boom");
    let e = ExtractError::Failed { exit_code: Some(-9), stderr_tail: "".into() };
    assert_eq!(e.message(), "pmtiles extract failed (exit Some(-9)): ");
    let e = ExtractError::Failed { exit_code: None, stderr_tail: "x".into() };
    assert_eq!(e.message(), "pmtiles extract failed (exit None): x");
    let e = ExtractError::TimedOut(TimeSpan::new(60, 0).expect("span"));
    assert_eq!(e.message(), "pmtiles extract timed out after 60s");
    let e = ExtractError::TimedOut(TimeSpan::new(1, 500_000_000).expect("span"));
    assert_eq!(e.message(), "pmtiles extract timed out after 1.5s");
    let e = ExtractError::TimedOut(TimeSpan::new(0, 1_500_000).expect("span"));
    assert_eq!(e.message(), "pmtiles extract timed out after 1.5ms");
    assert!(TimeSpan::new(0, 1_000_000_000).is_none());
    let t = TimeSpan::new(7, 9).expect("span");
    assert_eq!((t.secs(), t.subsec_nanos()), (7, 9));
    let e = ExtractError::Io("no such file".into());
    assert_eq!(e.message(), "io error running pmtiles extract: no such file");
    let x = GoPmtilesExtractor::new("pmtiles".into(), Duration::from_secs(5));
    assert_eq!(x.binary, "pmtiles");
    assert_eq!(x.timeout, Duration::from_secs(5));
}

#[test]
fn stderr_tail_keeps_the_trimmed_end() {
    assert_eq!(stderr_tail("  error: bad region\n"), "error: bad region");
    let long = format!("{}{}", "a".repeat(3000), "tail end\n");
    let t = stderr_tail(&long);
    assert_eq!(t.len(), 1999);
    assert!(t.ends_with("tail end"));
    let multibyte = format!("{}{}", "é".repeat(1500), "x");
    assert_eq!(stderr_tail(&multibyte), multibyte);
}
