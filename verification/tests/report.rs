use ash_starter::report::ConsoleMarkdownReport;
use ash_starter::report::ConsoleMarkdownReport as CMR;

#[test]
pub fn test_pretty_print_bytes() {
    assert_eq!(CMR::pretty_print_bytes(1), "1 B");
    assert_eq!(CMR::pretty_print_bytes(1024), "1 KiB");
    assert_eq!(CMR::pretty_print_bytes(1024 * 1024), "1 MiB");
    assert_eq!(CMR::pretty_print_bytes(1024 * 1024 * 1024), "1 GiB");

    assert_eq!(CMR::pretty_print_bytes(1000), "1000 B");
    assert_eq!(CMR::pretty_print_bytes(1034), "1.01 KiB");
    assert_eq!(CMR::pretty_print_bytes(2048), "2 KiB");
    assert_eq!(CMR::pretty_print_bytes(4096), "4 KiB");
    assert_eq!(CMR::pretty_print_bytes(34235), "33.433 KiB");
}

#[test]
pub fn order_of_magnitude_in_units_of_1024() {
    assert_eq!(CMR::order_of_magnitude(0), 0);
    assert_eq!(CMR::order_of_magnitude(1023), 0);
    assert_eq!(CMR::order_of_magnitude(1024), 1);
    assert_eq!(CMR::order_of_magnitude(1024 * 1024 - 1), 1);
    assert_eq!(CMR::order_of_magnitude(1024 * 1024), 2);
    assert_eq!(CMR::order_of_magnitude(1 << 30), 3);
    assert_eq!(CMR::order_of_magnitude(1 << 40), 4);
    assert_eq!(CMR::order_of_magnitude(u64::MAX), 4);
}

#[test]
pub fn pretty_print_edge_cases() {
    let _report = CMR::new();
    assert_eq!(CMR::pretty_print_bytes(0), "0 B");
    assert_eq!(CMR::pretty_print_bytes(1023), "1023 B");
    // 1.0625 KiB: the tie rounds to the even thousandth
    assert_eq!(CMR::pretty_print_bytes(1088), "1.062 KiB");
    assert_eq!(CMR::pretty_print_bytes(1536), "1.5 KiB");
    assert_eq!(CMR::pretty_print_bytes(1024 * 1024 - 1), "1023.999 KiB");
    assert_eq!(CMR::pretty_print_bytes((1u64 << 40) - 1), "1024 GiB");
}

/// The byte count formatted the way a float-based implementation does: the
/// count and divisor as `f32`, three decimals, read back and printed.
fn float_pretty_print(byte_size: u64) -> String {
    const UNITS: [&str; 4] = ["B", "KiB", "MiB", "GiB"];
    let mut order_of_magnitude = 0;
    let mut remaining_precision = byte_size as f64;
    while remaining_precision >= 1.0 {
        remaining_precision /= 1024.0;
        order_of_magnitude += 1;
    }
    if order_of_magnitude > 0 {
        order_of_magnitude -= 1;
    }
    let order_of_magnitude: usize = order_of_magnitude.min(UNITS.len());
    let divisor = 1024u64.pow(order_of_magnitude as u32);
    let full_print = format!("{:.3}", byte_size as f32 / divisor as f32);
    let truncated: f32 = full_print.parse().unwrap();
    format!("{size} {unit}", size = truncated, unit = UNITS[order_of_magnitude])
}

#[test]
pub fn pretty_print_agrees_with_float_formatting() {
    let mut samples: Vec<u64> = vec![];
    for i in 0..5000u64 {
        samples.push(i);
        samples.push(1024 * i + 17 * i);
        samples.push(i * 1_000_003);
        samples.push(i * 999_999_937);
        samples.push((1 << 24) + i * 3);
        samples.push((1 << 25) - i);
        samples.push(i * 64 + 1024);
    }
    let mut x: u64 = 12345;
    for _ in 0..20000 {
        x = x.wrapping_mul(6364136223846793005).wrapping_add(1442695040888963407);
        samples.push((x >> 24) % (1u64 << 40));
        samples.push((x >> 44) % (1u64 << 40));
    }
    for b in samples {
        if b < (1u64 << 40) {
            assert_eq!(ConsoleMarkdownReport::pretty_print_bytes(b), float_pretty_print(b), "byte size {}", b);
        }
    }
}
