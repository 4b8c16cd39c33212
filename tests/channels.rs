use gps::visibility::{allocate_channels, is_selected};

/// Elevations in microdegrees by PRN; slot 0 is unused.
fn elevations(pairs: &[(usize, i32)]) -> Vec<Option<i32>> {
    let mut e = vec![None; 33];
    for &(p, v) in pairs {
        e[p] = Some(v);
    }
    e
}

#[test]
fn satellites_below_mask_are_released() {
    let e = elevations(&[(3, 10_000_000), (5, -2_000_000), (9, 45_000_000)]);
    assert_eq!(allocate_channels(&vec![5, 3], &e, 0), vec![3, 9]);
    assert_eq!(allocate_channels(&vec![5, 3], &e, 20_000_000), vec![9]);
}

#[test]
fn newcomers_come_in_prn_order() {
    let e = elevations(&[(12, 1), (2, 2), (7, 3)]);
    assert_eq!(allocate_channels(&vec![], &e, 0), vec![2, 7, 12]);
}

#[test]
fn lowest_satellite_is_displaced_when_full() {
    // seventeen satellites: PRN 1 is lowest and loses its channel to PRN 20
    let mut pairs: Vec<(usize, i32)> = (1..=16).map(|p| (p, 10_000_000 + p as i32)).collect();
    pairs.push((20, 50_000_000));
    let e = elevations(&pairs);
    let current: Vec<u8> = (1..=16).collect();
    let r = allocate_channels(&current, &e, 0);
    assert_eq!(r.len(), 16);
    assert!(!r.contains(&1));
    assert_eq!(r[15], 20);
    assert_eq!(&r[..15], &(2..=16).collect::<Vec<u8>>()[..]);
}

#[test]
fn equal_elevations_favour_lower_prn() {
    let pairs: Vec<(usize, i32)> = (1..=17).map(|p| (p, 30_000_000)).collect();
    let e = elevations(&pairs);
    assert!(is_selected(&e, 0, 16));
    assert!(!is_selected(&e, 0, 17));
    assert!(!is_selected(&e, 0, 0));
}
