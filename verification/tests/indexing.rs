use fluid_sim::xy;

#[test]
fn xy_concrete_offsets() {
    assert_eq!(xy(0, 0, 10), 0);
    assert_eq!(xy(2, 3, 10), 32);
    assert_eq!(xy(9, 9, 10), 99);
    assert_eq!(xy(3, 0, 4), 3);
    assert_eq!(xy(0, 3, 4), 12);
}

#[test]
fn xy_bijection_small_grid() {
    // every cell of a 5x5 grid gets a distinct offset, and together the
    // offsets are exactly 0..25
    let n: u32 = 5;
    let mut seen = vec![false; (n * n) as usize];
    for y in 0..n {
        for x in 0..n {
            let k = xy(x, y, n);
            assert!(k < (n * n) as usize);
            assert!(!seen[k], "offset {} hit twice", k);
            seen[k] = true;
        }
    }
    assert!(seen.iter().all(|&s| s));
}

#[test]
fn xy_row_major_adjacency() {
    let n: u32 = 7;
    for y in 0..n {
        for x in 0..n - 1 {
            assert_eq!(xy(x + 1, y, n), xy(x, y, n) + 1);
        }
    }
    for y in 0..n - 1 {
        for x in 0..n {
            assert_eq!(xy(x, y + 1, n), xy(x, y, n) + n as usize);
        }
    }
}
