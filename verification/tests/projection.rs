use fluid_sim::project;
use fluid_sim::xy;

fn b(x: f32) -> u32 {
    x.to_bits()
}

fn f(x: u32) -> f32 {
    f32::from_bits(x)
}

fn field_from(n: u32, g: impl Fn(u32, u32) -> f32) -> Vec<u32> {
    let mut out = vec![0u32; (n * n) as usize];
    for y in 0..n {
        for x in 0..n {
            out[xy(x, y, n)] = b(g(x, y));
        }
    }
    out
}

fn mean_abs_divergence(u: &[u32], v: &[u32], n: u32) -> f64 {
    let mut total = 0.0f64;
    let mut cells = 0u32;
    for j in 1..n - 1 {
        for i in 1..n - 1 {
            let div = (f(u[xy(i + 1, j, n)]) - f(u[xy(i - 1, j, n)])) + (f(v[xy(i, j + 1, n)])
                - f(v[xy(i, j - 1, n)]));
            total += (div as f64).abs();
            cells += 1;
        }
    }
    total / cells as f64
}

#[test]
fn project_reduces_divergence() {
    // a divergent source blob in the middle of the grid, at rest near the
    // walls so the closing no-flow boundary conditions do not dominate
    let n: u32 = 10;
    let blob = |x: u32, y: u32, c: u32| {
        if (2..=7).contains(&x) && (2..=7).contains(&y) {
            (c as f32 - 4.5) * 0.05
        } else {
            0.0
        }
    };
    let mut u = field_from(n, |x, y| blob(x, y, x));
    let mut v = field_from(n, |x, y| blob(x, y, y));
    let mut p = field_from(n, |_, _| 0.0);
    let mut d = field_from(n, |_, _| 0.0);
    let before = mean_abs_divergence(&u, &v, n);
    assert!(before > 0.0);
    project(&mut u, &mut v, &mut p, &mut d, 20, n);
    let after = mean_abs_divergence(&u, &v, n);
    assert!(
        after < before,
        "divergence grew: before {} after {}",
        before,
        after
    );
}

#[test]
fn project_zero_iterations_keeps_interior_velocity() {
    // with no relaxation passes the pressure stays at its zeroed state, so
    // the gradient subtraction leaves the interior velocities untouched
    let n: u32 = 6;
    let mut u = field_from(n, |x, y| (x + y) as f32 * 0.05 + 0.1);
    let mut v = field_from(n, |x, y| (x * 2 + y) as f32 * 0.04 + 0.2);
    let u_before = u.clone();
    let v_before = v.clone();
    let mut p = field_from(n, |_, _| 0.7);
    let mut d = field_from(n, |_, _| 0.7);
    project(&mut u, &mut v, &mut p, &mut d, 0, n);
    for j in 1..n - 1 {
        for i in 1..n - 1 {
            assert_eq!(u[xy(i, j, n)], u_before[xy(i, j, n)]);
            assert_eq!(v[xy(i, j, n)], v_before[xy(i, j, n)]);
        }
    }
}

#[test]
fn project_leaves_divergence_free_field_near_zero() {
    // a uniform flow has no divergence; projection must not create any
    let n: u32 = 8;
    let mut u = field_from(n, |_, _| 0.25);
    let mut v = field_from(n, |_, _| 0.25);
    let mut p = field_from(n, |_, _| 0.0);
    let mut d = field_from(n, |_, _| 0.0);
    project(&mut u, &mut v, &mut p, &mut d, 20, n);
    // the divergence scratch holds zeros over the interior: uniform flow
    for j in 2..n - 2 {
        for i in 2..n - 2 {
            assert_eq!(f(d[xy(i, j, n)]), 0.0);
        }
    }
}
