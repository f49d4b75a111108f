use teensy4_canfd::util::{dlc_to_len, len_to_dlc};

#[test]
fn dlc_table() {
    let lens: Vec<u32> = (0..16).map(dlc_to_len).collect();
    assert_eq!(lens, vec![0, 1, 2, 3, 4, 5, 6, 7, 8, 12, 16, 20, 24, 32, 48, 64]);
}

#[test]
fn dlc_above_fifteen_wraps_by_nine() {
    assert_eq!(dlc_to_len(16), 7);
    assert_eq!(dlc_to_len(20), 2);
    assert_eq!(dlc_to_len(18), 0);
}

#[test]
fn len_to_dlc_rounds_up() {
    assert_eq!(len_to_dlc(0), 0);
    assert_eq!(len_to_dlc(8), 8);
    assert_eq!(len_to_dlc(9), 9);
    assert_eq!(len_to_dlc(12), 9);
    assert_eq!(len_to_dlc(13), 10);
    assert_eq!(len_to_dlc(33), 14);
    assert_eq!(len_to_dlc(49), 15);
    assert_eq!(len_to_dlc(64), 15);
}

#[test]
fn len_to_dlc_over_64_gives_8() {
    assert_eq!(len_to_dlc(65), 8);
    assert_eq!(len_to_dlc(u32::MAX), 8);
}

#[test]
fn shortest_fit_for_every_length() {
    for len in 0..=64u32 {
        let fit = dlc_to_len(len_to_dlc(len));
        assert!(fit >= len);
        let lengths = [0u32, 1, 2, 3, 4, 5, 6, 7, 8, 12, 16, 20, 24, 32, 48, 64];
        let smallest = *lengths.iter().filter(|l| **l >= len).min().unwrap();
        assert_eq!(fit, smallest);
    }
}

#[test]
fn dlc_round_trip() {
    for dlc in 0..=15u32 {
        assert_eq!(len_to_dlc(dlc_to_len(dlc)), dlc);
    }
}
