use codetree::size::{
    format_size, get_real_file_size, get_real_file_size_unix, get_real_file_size_windows,
    SizeReading,
};

fn reference(bytes: u64) -> String {
    let units = ["B", "KB", "MB", "GB", "TB"];
    if bytes == 0 {
        return "0 B".to_string();
    }
    let mut size = bytes as f64;
    let mut unit = 0;
    while size >= 1024.0 && unit < units.len() - 1 {
        size /= 1024.0;
        unit += 1;
    }
    if unit == 0 {
        format!("{} {}", bytes, units[unit])
    } else {
        format!("{:.1} {}", size, units[unit])
    }
}

#[test]
fn format_size_exact_values() {
    assert_eq!(format_size(0), "0 B");
    assert_eq!(format_size(1), "1 B");
    assert_eq!(format_size(1023), "1023 B");
    assert_eq!(format_size(1024), "1.0 KB");
    assert_eq!(format_size(1536), "1.5 KB");
    assert_eq!(format_size(1024 * 1024), "1.0 MB");
    assert_eq!(format_size(5 * 1024 * 1024 * 1024), "5.0 GB");
    assert_eq!(format_size(1024u64.pow(4)), "1.0 TB");
    assert_eq!(format_size(u64::MAX), "16777216.0 TB");
}

#[test]
fn format_size_rounds_ties_to_even() {
    // 1.25 KB and 1.75 KB lie exactly between two tenths.
    assert_eq!(format_size(1280), "1.2 KB");
    assert_eq!(format_size(1792), "1.8 KB");
    assert_eq!(format_size(1280), reference(1280));
    assert_eq!(format_size(1792), reference(1792));
}

#[test]
fn format_size_agrees_with_floating_point() {
    let mut samples: Vec<u64> = Vec::new();
    for k in 0..64u32 {
        let p = 1u64 << k;
        for d in [0u64, 1, 2, 3, 51, 52, 102, 103, 511, 512, 513, 1023] {
            samples.push(p.wrapping_add(d));
            samples.push(p.wrapping_sub(d));
            samples.push(p.wrapping_add(p / 1024 * d));
            samples.push(p.wrapping_add(p / 20 * (d % 20)));
        }
    }
    let mut x: u64 = 0x9E37_79B9_7F4A_7C15;
    for _ in 0..20000 {
        x ^= x << 13;
        x ^= x >> 7;
        x ^= x << 17;
        samples.push(x);
        samples.push(x >> (x % 61));
    }
    samples.push(u64::MAX);
    samples.push(u64::MAX - 1);
    samples.push((1u64 << 53) + 1);
    samples.push((1u64 << 53) + 2);
    samples.push((1u64 << 53) + 3);
    samples.push((1u64 << 63) + (1u64 << 10));
    samples.push((1u64 << 63) + (1u64 << 10) + 1);
    samples.push((1u64 << 63) + 3 * (1u64 << 10));
    for bytes in samples {
        assert_eq!(format_size(bytes), reference(bytes), "bytes {}", bytes);
    }
}

#[test]
fn block_usage_is_the_smaller_of_blocks_and_length() {
    assert_eq!(get_real_file_size_unix(8, 100), 100);
    assert_eq!(get_real_file_size_unix(8, 4096), 4096);
    assert_eq!(get_real_file_size_unix(8, 1 << 30), 4096);
    assert_eq!(get_real_file_size_unix(0, 10), 0);
    assert_eq!(get_real_file_size_unix(u64::MAX, 77), 77);
}

#[test]
fn compressed_query_rules() {
    // A directory takes no space.
    assert_eq!(get_real_file_size_windows(0x10, 5, 0, Some(9)), Some(0));
    // A failed attribute query does not make a directory.
    assert_eq!(get_real_file_size_windows(0xFFFF_FFFF, 5, 0, Some(9)), Some(5));
    // A failed size query falls back to the logical length.
    assert_eq!(get_real_file_size_windows(0x20, 0xFFFF_FFFF, 0, Some(9)), Some(9));
    assert_eq!(get_real_file_size_windows(0x20, 0xFFFF_FFFF, 0, None), None);
    // The two halves are put together.
    assert_eq!(get_real_file_size_windows(0x20, 7, 2, Some(1)), Some((2u64 << 32) | 7));
    assert_eq!(
        get_real_file_size_windows(0x20, 0xFFFF_FFFE, 0xFFFF_FFFF, None),
        Some(u64::MAX - 1)
    );
}

#[test]
fn compressed_size_below_length_is_reported() {
    let reading = SizeReading::Compressed { attributes: 0x20, low: 1000, high: 0, fallback: Some(50_000) };
    assert_eq!(get_real_file_size(&reading), Some(1000));
}

#[test]
fn real_size_by_kind_of_reading() {
    assert_eq!(get_real_file_size(&SizeReading::Blocks { blocks: 1, length: 600 }), Some(512));
    assert_eq!(get_real_file_size(&SizeReading::Length(42)), Some(42));
    assert_eq!(get_real_file_size(&SizeReading::Unavailable), None);
}
