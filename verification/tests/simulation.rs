use fluid_sim::xy;
use fluid_sim::Fluid;

fn b(x: f32) -> u32 {
    x.to_bits()
}

fn f(x: u32) -> f32 {
    f32::from_bits(x)
}

#[test]
fn new_state_is_zeroed() {
    let fluid = Fluid::new(8);
    assert_eq!(fluid.d().len(), 64);
    assert_eq!(fluid.d0().len(), 64);
    assert_eq!(fluid.source_u().len(), 64);
    assert_eq!(fluid.source_v().len(), 64);
    assert!(fluid.d().iter().all(|&c| f(c) == 0.0));
    assert!(fluid.source_u().iter().all(|&c| f(c) == 0.0));
    assert!(fluid.source_v().iter().all(|&c| f(c) == 0.0));
}

#[test]
fn tick_on_zero_state_stays_zero() {
    let mut fluid = Fluid::new(6);
    fluid.tick();
    fluid.tick();
    assert!(fluid.d().iter().all(|&c| f(c) == 0.0));
    assert!(fluid.d0().iter().all(|&c| f(c) == 0.0));
    assert!(fluid.source_u().iter().all(|&c| f(c) == 0.0));
    assert!(fluid.source_v().iter().all(|&c| f(c) == 0.0));
}

#[test]
fn tick_resets_source_buffers() {
    let mut fluid = Fluid::new(6);
    fluid.write_d0(xy(2, 2, 6), b(1.0));
    fluid.write_source_u(xy(3, 2, 6), b(0.5));
    fluid.write_source_v(xy(2, 3, 6), b(-0.25));
    fluid.tick();
    assert!(fluid.d0().iter().all(|&c| c == 0));
    assert!(fluid.source_u().iter().all(|&c| c == 0));
    assert!(fluid.source_v().iter().all(|&c| c == 0));
}

fn run_scripted(ticks: u32) -> Vec<u32> {
    let mut fluid = Fluid::new(8);
    fluid.set_dt(b(0.002));
    fluid.set_iterations(12);
    for t in 0..ticks {
        fluid.write_d0(xy(3, 3, 8), b(0.8));
        fluid.write_d0(xy(4, 4, 8), b(0.6));
        fluid.write_source_u(xy(3, 3, 8), b(0.1 + t as f32 * 0.01));
        fluid.write_source_v(xy(4, 3, 8), b(-0.2));
        fluid.tick();
    }
    fluid.d().clone()
}

#[test]
fn tick_is_deterministic() {
    // two identically constructed and identically fed states agree bit for
    // bit after any number of ticks
    let first = run_scripted(4);
    let second = run_scripted(4);
    assert_eq!(first, second);
    assert!(first.iter().any(|&c| f(c) > 0.0));
}

#[test]
fn single_injected_cell_diffuses_outward() {
    // one unit of ink injected at (2, 2) on a 4x4 grid, one tick with the
    // default parameters: the ink spreads but does not vanish or overflow
    let n: u32 = 4;
    let mut fluid = Fluid::new(n);
    fluid.write_d0(xy(2, 2, n), b(1.0));
    fluid.tick();
    let centre = f(fluid.d()[xy(2, 2, n)]);
    assert!(centre > 0.0, "the injected ink vanished");
    assert!(centre < 1.0, "the injected ink did not spread");
    for &(i, j) in [(1u32, 2u32), (3, 2), (2, 1), (2, 3)].iter() {
        let neighbour = f(fluid.d()[xy(i, j, n)]);
        assert!(neighbour > 0.0, "cell ({}, {}) received no ink", i, j);
    }
    for &cell in fluid.d().iter() {
        let val = f(cell);
        assert!((0.0..=1.0).contains(&val), "density {} out of range", val);
    }
}

#[test]
fn smallest_resolution_ticks_cleanly() {
    let n: u32 = 3;
    let mut fluid = Fluid::new(n);
    fluid.write_d0(xy(1, 1, n), b(1.0));
    fluid.tick();
    fluid.tick();
    for &cell in fluid.d().iter() {
        let val = f(cell);
        assert!((0.0..=1.0).contains(&val), "density {} out of range", val);
    }
}

#[test]
fn density_stays_in_unit_interval_over_many_ticks() {
    let n: u32 = 6;
    let mut fluid = Fluid::new(n);
    fluid.set_dt(b(0.01));
    for _ in 0..5 {
        fluid.write_d0(xy(2, 2, n), b(1.0));
        fluid.write_d0(xy(3, 3, n), b(1.0));
        fluid.write_source_u(xy(2, 2, n), b(0.4));
        fluid.write_source_v(xy(3, 2, n), b(-0.3));
        fluid.tick();
        for &cell in fluid.d().iter() {
            let val = f(cell);
            assert!((0.0..=1.0).contains(&val), "density {} out of range", val);
        }
    }
}
