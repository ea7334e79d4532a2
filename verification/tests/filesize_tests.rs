use zeus_fm::filesize::FileSize;

#[test]
fn filesize_frombytes_1048576() {
    let fs = FileSize::from_total_bytes(1048576);
    assert_eq!(fs.pb, 0);
    assert_eq!(fs.tb, 0);
    assert_eq!(fs.gb, 0);
    assert_eq!(fs.mb, 1);
    assert_eq!(fs.kb, 0);
    assert_eq!(fs.b, 0);
}

#[test]
fn filesize_frombytes_1048726() {
    let fs = FileSize::from_total_bytes(1048726);
    assert_eq!(fs.pb, 0);
    assert_eq!(fs.tb, 0);
    assert_eq!(fs.gb, 0);
    assert_eq!(fs.mb, 1);
    assert_eq!(fs.kb, 0);
    assert_eq!(fs.b, 150);
}

#[test]
fn filesize_roundtrip() {
    for &n in &[0u64, 1, 1023, 1024, 1048575, 1048576, 1048726, u64::MAX] {
        let fs = FileSize::from_total_bytes(n);
        assert_eq!(fs.get_total_bytes(), n);
    }
}

#[test]
fn filesize_all_units() {
    let total = 2 * 1125899906842624u64 + 3 * 1099511627776 + 4 * 1073741824 + 5 * 1048576
        + 6 * 1024 + 7;
    let fs = FileSize::from_total_bytes(total);
    assert_eq!(fs.pb, 2);
    assert_eq!(fs.tb, 3);
    assert_eq!(fs.gb, 4);
    assert_eq!(fs.mb, 5);
    assert_eq!(fs.kb, 6);
    assert_eq!(fs.b, 7);
    assert_eq!(fs.get_total_bytes(), total);
}
