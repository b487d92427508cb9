use fluid_sim::advect;
use fluid_sim::add_array;
use fluid_sim::clamp;
use fluid_sim::clamp_ab;
use fluid_sim::diffuse;
use fluid_sim::lerp;
use fluid_sim::set_boundary;
use fluid_sim::xy;
use fluid_sim::BoundaryAction;

fn b(x: f32) -> u32 {
    x.to_bits()
}

fn f(x: u32) -> f32 {
    f32::from_bits(x)
}

fn field_from(n: u32, g: impl Fn(u32, u32) -> f32) -> Vec<u32> {
    let mut out = vec![0u32; (n * n) as usize];
    for y in 0..n {
        for x in 0..n {
            out[xy(x, y, n)] = b(g(x, y));
        }
    }
    out
}

#[test]
fn clamp_matches_unit_interval() {
    assert_eq!(clamp(b(1.5)), b(1.0));
    assert_eq!(clamp(b(-0.5)), b(0.0));
    assert_eq!(clamp(b(0.3)), b(0.3));
    assert_eq!(clamp(b(0.0)), b(0.0));
    assert_eq!(clamp(b(1.0)), b(1.0));
}

#[test]
fn clamp_ab_matches_max_then_min() {
    assert_eq!(clamp_ab(b(5.0), b(1.5), b(3.5)), b(3.5));
    assert_eq!(clamp_ab(b(0.25), b(1.5), b(3.5)), b(1.5));
    assert_eq!(clamp_ab(b(2.0), b(1.5), b(3.5)), b(2.0));
    // when the bounds cross, raising first then lowering lands on the
    // upper argument, as x.max(a).min(b) does
    assert_eq!(clamp_ab(b(2.0), b(1.5), b(0.5)), b(0.5));
}

#[test]
fn lerp_exact_values() {
    assert_eq!(lerp(b(1.0), b(2.0), b(0.5)), b(1.5));
    assert_eq!(lerp(b(0.25), b(0.75), b(0.0)), b(0.25));
    let a = 0.1f32;
    let c = 0.7f32;
    let t = 0.3f32;
    assert_eq!(lerp(b(a), b(c), b(t)), (a + ((c - a) * t)).to_bits());
}

#[test]
fn add_array_pointwise_binary32_sum() {
    let mut a = vec![b(0.1), b(0.2), b(1.5)];
    let c = vec![b(0.2), b(0.4), b(-0.5)];
    add_array(&mut a, &c);
    assert_eq!(a[0], (0.1f32 + 0.2f32).to_bits());
    assert_eq!(a[1], (0.2f32 + 0.4f32).to_bits());
    assert_eq!(a[2], (1.5f32 + -0.5f32).to_bits());
}

#[test]
fn boundary_neighbour_copies_edges() {
    let n: u32 = 4;
    let mut x = field_from(n, |a, c| (a + c * n) as f32 * 0.05 + 0.01);
    set_boundary(&mut x, BoundaryAction::Neighbour, n);
    for i in 1..=2u32 {
        assert_eq!(x[xy(0, i, n)], x[xy(1, i, n)]);
        assert_eq!(x[xy(n - 1, i, n)], x[xy(n - 2, i, n)]);
        assert_eq!(x[xy(i, 0, n)], x[xy(i, 1, n)]);
        assert_eq!(x[xy(i, n - 1, n)], x[xy(i, n - 2, n)]);
    }
}

#[test]
fn boundary_corners_average_edges() {
    let n: u32 = 5;
    let mut x = field_from(n, |a, c| (a * 3 + c * 7) as f32 * 0.02);
    set_boundary(&mut x, BoundaryAction::Neighbour, n);
    let avg = |p: u32, q: u32| (0.5f32 * (f(p) + f(q))).to_bits();
    assert_eq!(x[xy(0, 0, n)], avg(x[xy(1, 0, n)], x[xy(0, 1, n)]));
    assert_eq!(x[xy(n - 1, 0, n)], avg(x[xy(n - 2, 0, n)], x[xy(n - 1, 1, n)]));
    assert_eq!(x[xy(0, n - 1, n)], avg(x[xy(0, n - 2, n)], x[xy(1, n - 1, n)]));
    assert_eq!(
        x[xy(n - 1, n - 1, n)],
        avg(x[xy(n - 1, n - 2, n)], x[xy(n - 2, n - 1, n)])
    );
}

#[test]
fn boundary_negative_x_flips_sign() {
    let n: u32 = 4;
    let mut x = field_from(n, |a, c| (a + c * n) as f32 * 0.125 + 0.5);
    set_boundary(&mut x, BoundaryAction::NegativeX, n);
    for i in 1..=2u32 {
        assert_eq!(x[xy(0, i, n)], (-f(x[xy(1, i, n)])).to_bits());
        assert_eq!(x[xy(n - 1, i, n)], (-f(x[xy(n - 2, i, n)])).to_bits());
        // the horizontal edges are plain copies under this action
        assert_eq!(x[xy(i, 0, n)], x[xy(i, 1, n)]);
        assert_eq!(x[xy(i, n - 1, n)], x[xy(i, n - 2, n)]);
    }
}

#[test]
fn boundary_negative_y_flips_sign() {
    let n: u32 = 4;
    let mut x = field_from(n, |a, c| (a * 2 + c) as f32 * 0.0625 + 0.25);
    set_boundary(&mut x, BoundaryAction::NegativeY, n);
    for i in 1..=2u32 {
        assert_eq!(x[xy(i, 0, n)], (-f(x[xy(i, 1, n)])).to_bits());
        assert_eq!(x[xy(i, n - 1, n)], (-f(x[xy(i, n - 2, n)])).to_bits());
        assert_eq!(x[xy(0, i, n)], x[xy(1, i, n)]);
        assert_eq!(x[xy(n - 1, i, n)], x[xy(n - 2, i, n)]);
    }
}

#[test]
fn boundary_smallest_grid_floods_from_centre() {
    // on the smallest legal grid the single interior cell feeds every edge,
    // and the corners average two copies of it
    let n: u32 = 3;
    let mut x = field_from(n, |a, c| (a + c * n) as f32 * 0.1);
    let centre = x[xy(1, 1, n)];
    set_boundary(&mut x, BoundaryAction::Neighbour, n);
    for &cell in x.iter() {
        assert_eq!(cell, centre);
    }
}

#[test]
fn diffuse_zero_iterations_is_identity() {
    let n: u32 = 5;
    let mut x = field_from(n, |a, c| (a + c * n) as f32 * 0.03);
    let before = x.clone();
    let x0 = field_from(n, |_, _| 0.9);
    diffuse(&mut x, &x0, b(0.25), 0, n, true);
    assert_eq!(x, before);
}

#[test]
fn diffuse_zero_dt_is_identity_on_constant_field() {
    let n: u32 = 5;
    let mut x = field_from(n, |_, _| 0.25);
    let x0 = x.clone();
    diffuse(&mut x, &x0, b(0.0), 8, n, true);
    assert_eq!(x, x0);
}

#[test]
fn diffuse_zero_dt_writes_source_interior() {
    let n: u32 = 5;
    let mut x = field_from(n, |_, _| 0.0);
    let x0 = field_from(n, |a, c| (a + c * n) as f32 * 0.03);
    diffuse(&mut x, &x0, b(0.0), 3, n, true);
    for j in 1..n - 1 {
        for i in 1..n - 1 {
            assert_eq!(x[xy(i, j, n)], x0[xy(i, j, n)]);
        }
    }
}

#[test]
fn diffuse_clamp_mode_distinguishes_ranges() {
    // with a zero time step the relaxed value is the source value, clamped
    // only in clamped mode
    let n: u32 = 3;
    let x0 = field_from(n, |_, _| 2.5);
    let mut xc = field_from(n, |_, _| 0.0);
    diffuse(&mut xc, &x0, b(0.0), 1, n, true);
    assert_eq!(xc[xy(1, 1, n)], b(1.0));
    let mut xu = field_from(n, |_, _| 0.0);
    diffuse(&mut xu, &x0, b(0.0), 1, n, false);
    assert_eq!(xu[xy(1, 1, n)], b(2.5));
}

#[test]
fn diffuse_single_cell_exact_value() {
    let n: u32 = 3;
    let mut x = field_from(n, |a, c| (a + c * n) as f32 * 0.1);
    let x0 = field_from(n, |a, c| (a + c * n) as f32 * 0.05);
    let xl = f(x[xy(0, 1, n)]);
    let xr = f(x[xy(2, 1, n)]);
    let xd = f(x[xy(1, 0, n)]);
    let xu = f(x[xy(1, 2, n)]);
    let x0c = f(x0[xy(1, 1, n)]);
    let dt = 0.001f32;
    diffuse(&mut x, &x0, b(dt), 1, n, true);
    let a = dt * 0.005f32 * 9.0f32;
    let nb = xl + xr + xd + xu;
    let expected = ((x0c + a * nb) / (1.0f32 + 4.0f32 * a)).max(0.0f32).min(1.0f32);
    assert_eq!(x[xy(1, 1, n)], expected.to_bits());
}

#[test]
fn diffuse_keeps_density_in_unit_interval() {
    let n: u32 = 6;
    let mut x = field_from(n, |a, c| ((a * 13 + c * 7) % 11) as f32 / 10.0);
    let x0 = field_from(n, |a, c| ((a * 5 + c * 3) % 11) as f32 / 10.0);
    diffuse(&mut x, &x0, b(0.5), 20, n, true);
    for &cell in x.iter() {
        let val = f(cell);
        assert!((0.0..=1.0).contains(&val), "value {} out of range", val);
    }
}

#[test]
fn advect_zero_velocity_keeps_inner_interior() {
    let n: u32 = 6;
    let zero = field_from(n, |_, _| 0.0);
    let d0 = field_from(n, |a, c| (a + c * n) as f32 * 0.02 + 0.01);
    let mut d = field_from(n, |_, _| 0.0);
    advect(&mut d, &d0, &zero, &zero, b(0.001), n);
    // cells whose traced-back position is not moved by the clamp
    for j in 2..=3u32 {
        for i in 2..=3u32 {
            assert_eq!(d[xy(i, j, n)], d0[xy(i, j, n)]);
        }
    }
}

#[test]
fn advect_zero_velocity_identity_on_constant_field() {
    let n: u32 = 6;
    let zero = field_from(n, |_, _| 0.0);
    let d0 = field_from(n, |_, _| 0.3);
    let mut d = field_from(n, |_, _| 0.0);
    advect(&mut d, &d0, &zero, &zero, b(0.001), n);
    assert_eq!(d, d0);
}

#[test]
fn advect_strong_flow_exact_interpolation() {
    // a uniform leftward trace that saturates the clamp at the lower bound
    let n: u32 = 6;
    let u = field_from(n, |_, _| 20.0);
    let v = field_from(n, |_, _| 0.0);
    let d0 = field_from(n, |a, c| (a + c * n) as f32 * 0.02 + 0.01);
    let mut d = field_from(n, |_, _| 0.0);
    advect(&mut d, &d0, &u, &v, b(0.5), n);
    // cell (2, 2): traced x is clamped to 1.5, traced y stays at 2, so the
    // result interpolates halfway between columns 1 and 2 of row 2
    let a = f(d0[xy(1, 2, n)]);
    let c = f(d0[xy(2, 2, n)]);
    let expected = a + ((c - a) * 0.5f32);
    assert_eq!(d[xy(2, 2, n)], expected.to_bits());
}
