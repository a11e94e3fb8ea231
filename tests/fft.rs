use tuner::fft::{freq_bins, lower_power_of_two};

#[test]
fn rearrange() {
    let mut data = [0, 1, 2, 3, 4, 5, 6, 7];
    tuner::fft::rearrange::<i32>(&mut data);

    assert_eq!(data, [0, 4, 2, 6, 1, 5, 3, 7])
}

#[test]
fn rearrange_twice_restores_order() {
    for bits in 0..11 {
        let n = 1usize << bits;
        let original: Vec<usize> = (0..n).collect();
        let mut data = original.clone();
        tuner::fft::rearrange(&mut data);
        if n >= 4 {
            assert_ne!(data, original);
        }
        tuner::fft::rearrange(&mut data);
        assert_eq!(data, original);
    }
}

#[test]
fn rearrange_sixteen() {
    let mut data: Vec<u32> = (0..16).collect();
    tuner::fft::rearrange(&mut data);
    assert_eq!(data, vec![0, 8, 4, 12, 2, 10, 6, 14, 1, 9, 5, 13, 3, 11, 7, 15]);
}

#[test]
fn freq_bins_shape() {
    let bins = freq_bins(8);
    assert_eq!(bins, vec![0, 1, 2, 3, 4, -3, -2, -1]);
    let n: u32 = 1024;
    let bins = freq_bins(n);
    assert_eq!(bins.len(), 1024);
    assert_eq!(bins[0], 0);
    assert_eq!(bins[512], 512);
    assert_eq!(bins[513], -511);
    assert!(freq_bins(0).is_empty());
}

#[test]
fn lower_powers_of_two() {
    assert_eq!(lower_power_of_two(1), 1);
    assert_eq!(lower_power_of_two(2), 2);
    assert_eq!(lower_power_of_two(3), 2);
    assert_eq!(lower_power_of_two(1024 * 50), 32768);
    assert_eq!(lower_power_of_two(usize::MAX), 1usize << (usize::BITS - 1));
}
