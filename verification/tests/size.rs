use metasort::number::human_readable_size;

fn in_floats(size: u64) -> String {
    const KB: u64 = 1024;
    const MB: u64 = KB * 1024;
    const GB: u64 = MB * 1024;
    if size >= GB {
        format!("{:.2} GB", size as f64 / GB as f64)
    } else if size >= MB {
        format!("{:.2} MB", size as f64 / MB as f64)
    } else if size >= KB {
        format!("{:.2} KB", size as f64 / KB as f64)
    } else {
        format!("{} B", size)
    }
}

#[test]
fn sizes_have_exact_texts() {
    assert_eq!(human_readable_size(0), "0 B");
    assert_eq!(human_readable_size(1), "1 B");
    assert_eq!(human_readable_size(1023), "1023 B");
    assert_eq!(human_readable_size(1024), "1.00 KB");
    assert_eq!(human_readable_size(1536), "1.50 KB");
    assert_eq!(human_readable_size(1048575), "1024.00 KB");
    assert_eq!(human_readable_size(1048576), "1.00 MB");
    assert_eq!(human_readable_size(5 * 1048576 + 524288), "5.50 MB");
    assert_eq!(human_readable_size(1073741824), "1.00 GB");
    assert_eq!(human_readable_size(u64::MAX), "17179869184.00 GB");
}

#[test]
fn size_ties_round_to_even() {
    assert_eq!(human_readable_size(1024 + 128), in_floats(1024 + 128));
    assert_eq!(human_readable_size(1024 + 128), "1.12 KB");
    assert_eq!(human_readable_size(1024 + 384), "1.38 KB");
}

#[test]
fn sizes_agree_with_double_precision() {
    for size in 0..200_000u64 {
        assert_eq!(human_readable_size(size), in_floats(size));
    }
    let mut size: u64 = 1;
    for step in 0..200_000u64 {
        size = size.wrapping_mul(6364136223846793005).wrapping_add(1442695040888963407 + step);
        let small = size >> (step % 64);
        assert_eq!(human_readable_size(small), in_floats(small));
    }
    for shift in 0..64u32 {
        let base = 1u64 << shift;
        for d in 0..40u64 {
            let above = base.saturating_add(d * (1 + (base >> 12)));
            let below = base.saturating_sub(d * (1 + (base >> 13)));
            assert_eq!(human_readable_size(above), in_floats(above));
            assert_eq!(human_readable_size(below), in_floats(below));
        }
    }
}
