use atlas::geometry::{isqrt, resolve_edge_geometry, Vec3};

#[test]
fn edge_midpoint_and_length_are_exact() {
    let g = resolve_edge_geometry(Vec3::new(0, 0, 0), Vec3::new(3000, 4000, 0));
    assert_eq!(g.midpoint, Vec3::new(1500, 2000, 0));
    assert_eq!(g.length, 5000);
    assert_eq!(g.axis, Vec3::new(3000, 4000, 0));
    assert_eq!(g.direction, Vec3::new(600_000, 800_000, 0));
    assert_eq!(g.look, Vec3::new(4000, -3000, 0));
}

#[test]
fn edge_midpoint_rounds_down() {
    let g = resolve_edge_geometry(Vec3::new(-1, 3, -7), Vec3::new(0, 4, -8));
    assert_eq!(g.midpoint, Vec3::new(-1, 3, -8));
    assert_eq!(g.length, 1);
}

#[test]
fn edge_geometry_is_symmetric_in_midpoint_and_length() {
    let a = Vec3::new(-250_000, 12_345, 999_999);
    let b = Vec3::new(400_000, -1_000_000, -3);
    let g1 = resolve_edge_geometry(a, b);
    let g2 = resolve_edge_geometry(b, a);
    assert_eq!(g1.midpoint, g2.midpoint);
    assert_eq!(g1.length, g2.length);
    assert_eq!(g1.axis, Vec3::new(-g2.axis.x, -g2.axis.y, -g2.axis.z));
}

#[test]
fn degenerate_edge_gets_fallback_axis() {
    let p = Vec3::new(5, 5, 5);
    let g = resolve_edge_geometry(p, p);
    assert_eq!(g.midpoint, p);
    assert_eq!(g.length, 0);
    assert_eq!(g.axis, Vec3::new(0, 1_000_000, 0));
    assert_eq!(g.direction, Vec3::new(0, 1_000_000, 0));
    assert_eq!(g.look, Vec3::new(0, 0, -1_000_000));
    let dot = g.look.x * g.axis.x + g.look.y * g.axis.y + g.look.z * g.axis.z;
    assert_eq!(dot, 0);
}

#[test]
fn look_vector_is_orthogonal_for_a_diagonal_edge() {
    let g = resolve_edge_geometry(Vec3::new(1, 2, 3), Vec3::new(-700, 900, 250));
    let dot = g.look.x * g.axis.x + g.look.y * g.axis.y + g.look.z * g.axis.z;
    assert_eq!(dot, 0);
    assert_ne!(g.look, Vec3::zero());
}

#[test]
fn integer_square_roots() {
    assert_eq!(isqrt(0), 0);
    assert_eq!(isqrt(1), 1);
    assert_eq!(isqrt(15), 3);
    assert_eq!(isqrt(16), 4);
    assert_eq!(isqrt(12_000_000_000_000), 3_464_101);
    assert_eq!(isqrt(12_000_000_000_000_000_000), 3_464_101_615);
}

#[test]
fn edge_across_the_whole_world() {
    let a = Vec3::new(-1_000_000_000, -1_000_000_000, -1_000_000_000);
    let b = Vec3::new(1_000_000_000, 1_000_000_000, 1_000_000_000);
    let g = resolve_edge_geometry(a, b);
    assert_eq!(g.midpoint, Vec3::zero());
    assert_eq!(g.length, 3_464_101_615);
    assert_eq!(g.direction, Vec3::new(577_350, 577_350, 577_350));
}
