use peek::units::format_bytes;

fn reference(bytes: u64) -> String {
    let units = ["B", "KB", "MB", "GB", "TB"];
    let mut value = bytes as f64;
    let mut unit_index = 0;
    while value >= 1024.0 && unit_index < units.len() - 1 {
        value /= 1024.0;
        unit_index += 1;
    }
    if unit_index == 0 {
        format!("{bytes} B")
    } else {
        format!("{value:.1} {}", units[unit_index])
    }
}

#[test]
fn format_bytes_examples() {
    assert_eq!(format_bytes(0), "0 B");
    assert_eq!(format_bytes(1023), "1023 B");
    assert_eq!(format_bytes(1024), "1.0 KB");
    assert_eq!(format_bytes(1536), "1.5 KB");
    assert_eq!(format_bytes(1048576), "1.0 MB");
    assert_eq!(format_bytes(1099511627776), "1.0 TB");
}

#[test]
fn format_bytes_ties_match_float_formatting() {
    for b in [1280u64, 1331, 1126, 3328, 1075, 10240 + 512, 1048576 * 5 / 4] {
        assert_eq!(format_bytes(b), reference(b), "bytes = {}", b);
    }
}

#[test]
fn format_bytes_matches_float_formatting_on_a_sweep() {
    let mut b: u64 = 0;
    while b < 5_000_000 {
        assert_eq!(format_bytes(b), reference(b), "bytes = {}", b);
        b += 1;
    }
    let mut x: u64 = 1;
    for _ in 0..200_000 {
        x = x.wrapping_mul(6364136223846793005).wrapping_add(1442695040888963407);
        for shift in [0u32, 8, 16, 24, 30, 40, 50] {
            let b = x >> shift;
            assert_eq!(format_bytes(b), reference(b), "bytes = {}", b);
        }
    }
    for b in [u64::MAX, u64::MAX - 1, 1 << 53, (1 << 53) + 1, (1 << 53) + 3, (1 << 63) + 1024] {
        assert_eq!(format_bytes(b), reference(b), "bytes = {}", b);
    }
}
