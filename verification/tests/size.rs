use herdr_clip::size::human_size;

fn float_size(bytes: usize) -> String {
    if bytes >= 1024 * 1024 {
        format!("{:.1} MB", bytes as f64 / (1024.0 * 1024.0))
    } else if bytes >= 1024 {
        format!("{:.1} KB", bytes as f64 / 1024.0)
    } else {
        format!("{bytes} B")
    }
}

#[test]
fn sizes_have_one_decimal() {
    assert_eq!(human_size(0), "0 B");
    assert_eq!(human_size(1023), "1023 B");
    assert_eq!(human_size(1024), "1.0 KB");
    assert_eq!(human_size(1536), "1.5 KB");
    assert_eq!(human_size(1024 * 1024 - 1), "1024.0 KB");
    assert_eq!(human_size(2 * 1024 * 1024), "2.0 MB");
    assert_eq!(human_size(2202010), "2.1 MB");
}

#[test]
fn sizes_print_like_floats() {
    for bytes in 0..200_000 {
        assert_eq!(human_size(bytes), float_size(bytes), "{bytes}");
    }
    let mut x: u64 = 1;
    for i in 0..200_000u64 {
        x = x.wrapping_mul(6364136223846793005).wrapping_add(1442695040888963407);
        let bytes = (x >> (i % 60)) as usize;
        assert_eq!(human_size(bytes), float_size(bytes), "{bytes}");
    }
}

#[test]
fn ties_and_huge_sizes_print_like_floats() {
    for k in 0..2000usize {
        for unit in [1024usize, 1024 * 1024] {
            // Multiples of a twentieth of a unit, where rounding is decided.
            let bytes = unit + k * unit / 20;
            assert_eq!(human_size(bytes), float_size(bytes), "{bytes}");
        }
    }
    for shift in 50..64 {
        for d in 0..600usize {
            for bytes in [(1usize << shift) - d, (1usize << shift).wrapping_add(d)] {
                assert_eq!(human_size(bytes), float_size(bytes), "{bytes}");
            }
        }
    }
    assert_eq!(human_size(usize::MAX), float_size(usize::MAX));
}
