use yabts::stats::ServerStats;

fn percent(rcv: u64, sent: u64) -> u8 {
    ((rcv as f64 / sent as f64) * 100 as f64) as u8
}

#[test]
fn new_stats_are_zero() {
    let s = ServerStats::new();
    assert_eq!(s.get_stats(), (0, 0, 0, 0, 0, 0));
}

#[test]
fn update_stats_adds() {
    let mut s = ServerStats::new();
    s.update_stats(10, 20);
    s.update_stats(1, 2);
    assert_eq!(s.get_stats(), (11, 22, 0, 0, 0, 0));
}

#[test]
fn update_stats_wraps_around() {
    let mut s = ServerStats::new();
    s.update_stats(u64::MAX, u64::MAX - 1);
    s.update_stats(3, 5);
    assert_eq!(s.get_stats(), (2, 3, 0, 0, 0, 0));
}

#[test]
fn update_order_does_not_matter() {
    let mut a = ServerStats::new();
    a.update_stats(u64::MAX, 4);
    a.update_stats(7, 9);
    let mut b = ServerStats::new();
    b.update_stats(7, 9);
    b.update_stats(u64::MAX, 4);
    assert_eq!(a.get_stats(), b.get_stats());
}

#[test]
fn compression_ratio_is_received_over_sent() {
    let mut s = ServerStats::new();
    s.add_compression_data(50, 100, percent);
    assert_eq!(s.get_stats(), (0, 0, 50, 0, 0, 0));
    s.add_compression_data(10, 100, percent);
    assert_eq!(s.get_stats().2, 30);
}

#[test]
fn ratio_is_kept_while_nothing_was_sent() {
    let mut s = ServerStats::new();
    s.add_compression_data(5, 0, percent);
    assert_eq!(s.get_stats().2, 0);
    s.add_compression_data(0, 10, percent);
    assert_eq!(s.get_stats().2, 50);
}

#[test]
fn ratio_saturates() {
    let mut s = ServerStats::new();
    s.add_encode_data(1000, 10, percent);
    assert_eq!(s.get_stats().4, 255);
}

#[test]
fn each_kind_keeps_its_own_ratio() {
    let mut s = ServerStats::new();
    s.add_decompression_data(3, 4, percent);
    s.add_encode_data(1, 2, percent);
    s.add_decode_data(1, 4, percent);
    assert_eq!(s.get_stats(), (0, 0, 0, 75, 50, 25));
}

#[test]
fn ratio_function_gets_the_totals() {
    let mut s = ServerStats::new();
    s.add_decode_data(3, 4, |r, t| (r + t) as u8);
    s.add_decode_data(1, 1, |r, t| (r * 10 + t) as u8);
    assert_eq!(s.get_stats().5, 45);
}

#[test]
fn reset_gives_zero() {
    let mut s = ServerStats::new();
    s.update_stats(1, 2);
    s.add_compression_data(1, 2, percent);
    s.add_decompression_data(1, 2, percent);
    s.add_encode_data(1, 2, percent);
    s.add_decode_data(1, 2, percent);
    s.reset_stats();
    assert_eq!(s.get_stats(), (0, 0, 0, 0, 0, 0));
    s.add_compression_data(0, 4, percent);
    assert_eq!(s.get_stats().2, 0);
}
