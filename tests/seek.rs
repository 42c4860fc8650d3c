use line_seek::dispatch::{select_kernel, Dispatcher, Kernel, Platform};
use line_seek::lines_bwd::{lines_bwd_fallback, lines_bwd_with};
use line_seek::lines_fwd::{lines_fwd_fallback, lines_fwd_with};
use line_seek::newlines::count_newlines;
use line_seek::{lines_bwd, lines_fwd};

const KERNELS: [Kernel; 3] = [Kernel::Scalar, Kernel::Wide16, Kernel::Wide32];

/// Deterministic pseudo-random bytes with roughly one newline in `density`.
fn random_haystack(seed: u64, len: usize, density: u64) -> Vec<u8> {
    let mut state = seed.wrapping_mul(6364136223846793005).wrapping_add(1442695040888963407);
    let mut out = Vec::with_capacity(len);
    for _ in 0..len {
        state = state.wrapping_mul(6364136223846793005).wrapping_add(1442695040888963407);
        let r = state >> 33;
        out.push(if r % density == 0 { b'\n' } else { b'a' + (r % 26) as u8 });
    }
    out
}

#[test]
fn forward_scenario_second_line() {
    let h = b"a\nbb\nccc\n";
    assert_eq!(lines_fwd(h, 0, 0, 2), (5, 2));
    for k in KERNELS {
        assert_eq!(lines_fwd_with(k, h, 0, 0, 2), (5, 2));
    }
}

#[test]
fn backward_scenario_first_line() {
    let h = b"a\nbb\nccc\n";
    assert_eq!(lines_bwd(h, 9, 3, 1), (2, 1));
    for k in KERNELS {
        assert_eq!(lines_bwd_with(k, h, 9, 3, 1), (2, 1));
    }
}

#[test]
fn backward_to_line_zero_reaches_start() {
    let h = b"a\nbb\nccc\n";
    assert_eq!(lines_bwd(h, 9, 3, 0), (0, 0));
    assert_eq!(lines_bwd(h, 4, 1, 0), (0, 0));
}

#[test]
fn noop_forward_when_target_reached() {
    let h = b"x\ny\nz";
    assert_eq!(lines_fwd(h, 2, 1, 1), (2, 1));
    assert_eq!(lines_fwd(h, 2, 1, 0), (2, 1));
    assert_eq!(lines_fwd_fallback(h, 3, 5, -2), (3, 5));
}

#[test]
fn noop_backward_when_target_reached() {
    let h = b"x\ny\nz";
    assert_eq!(lines_bwd(h, 4, 2, 2), (4, 2));
    assert_eq!(lines_bwd(h, 4, 2, 7), (4, 2));
    assert_eq!(lines_bwd_fallback(h, 1, 0, 0), (1, 0));
}

#[test]
fn offset_past_end_is_clamped() {
    let h = b"ab\ncd";
    assert_eq!(lines_fwd(h, 100, 1, 1), (5, 1));
    assert_eq!(lines_fwd(h, 100, 1, 3), (5, 1));
    assert_eq!(lines_bwd(h, 100, 1, 0), (0, 0));
    assert_eq!(lines_bwd(h, 100, 1, 1), (5, 1));
}

#[test]
fn empty_haystack_gives_origin() {
    let h: &[u8] = b"";
    for stop in [-3, 0, 1, 5] {
        for k in KERNELS {
            assert_eq!(lines_fwd_with(k, h, 0, 0, stop), (0, 0));
            assert_eq!(lines_bwd_with(k, h, 0, 0, stop), (0, 0));
            assert_eq!(lines_fwd_with(k, h, 7, 0, stop), (0, 0));
        }
    }
}

#[test]
fn no_newlines_runs_to_end() {
    let h = vec![b'q'; 100];
    for stop in [1, 2, 1000] {
        for k in KERNELS {
            assert_eq!(lines_fwd_with(k, &h, 0, 0, stop), (100, 0));
            assert_eq!(lines_fwd_with(k, &h, 40, 3, stop + 3), (100, 3));
        }
    }
}

#[test]
fn forward_exhaustion_reports_short_line() {
    let h = b"a\nb\nc";
    assert_eq!(lines_fwd(h, 0, 0, 10), (5, 2));
    let long = random_haystack(3, 500, 9);
    let total = long.iter().filter(|&&b| b == b'\n').count() as isize;
    for k in KERNELS {
        assert_eq!(lines_fwd_with(k, &long, 0, 0, total + 1), (500, total));
    }
}

#[test]
fn backward_exhaustion_reports_line_at_start() {
    let h = b"a\nb\nc";
    assert_eq!(lines_bwd(h, 5, 10, 2), (0, 8));
}

#[test]
fn window_edge_exact_width() {
    for width in [16usize, 32] {
        let mut exact = vec![b'x'; width - 1];
        exact.push(b'\n');
        let mut longer = vec![b'x'; width];
        longer.push(b'\n');
        for k in KERNELS {
            assert_eq!(lines_fwd_with(k, &exact, 0, 0, 1), (width, 1));
            assert_eq!(lines_fwd_with(k, &longer, 0, 0, 1), (width + 1, 1));
            assert_eq!(lines_fwd_with(k, &exact, 0, 0, 2), (width, 1));
            assert_eq!(lines_fwd_with(k, &longer, 0, 0, 2), (width + 1, 1));
            assert_eq!(lines_bwd_with(k, &exact, width, 1, 0), (0, 0));
            assert_eq!(lines_bwd_with(k, &longer, width + 1, 1, 0), (0, 0));
        }
    }
}

#[test]
fn window_committed_to_exact_target_then_scans_on() {
    // 32 bytes holding one newline at the very start, then more text.
    let mut h = vec![b'\n'];
    h.extend(vec![b'y'; 31]);
    h.extend(b"zz\nw");
    for k in KERNELS {
        // Backward from the end at line 2: the top window holds one newline,
        // bringing the line to 1, and the scan must go on to the start.
        assert_eq!(lines_bwd_with(k, &h, h.len(), 2, 1), (1, 1));
        assert_eq!(lines_bwd_with(k, &h, h.len(), 2, 0), (0, 0));
        assert_eq!(lines_fwd_with(k, &h, 0, 0, 2), (35, 2));
    }
}

#[test]
fn strategies_agree_on_random_input() {
    for seed in 0..40u64 {
        let len = (seed as usize * 37) % 300;
        let density = 1 + seed % 7 * 5;
        let h = random_haystack(seed, len, density);
        let total = h.iter().filter(|&&b| b == b'\n').count() as isize;
        for offset in [0usize, len / 3, len / 2, len, len + 4] {
            let clamped = offset.min(len);
            let line_here = h[..clamped].iter().filter(|&&b| b == b'\n').count() as isize;
            for stop in -1..=total + 2 {
                let fwd = lines_fwd_fallback(&h, offset, line_here, stop);
                let bwd = lines_bwd_fallback(&h, offset, line_here, stop);
                for k in KERNELS {
                    assert_eq!(lines_fwd_with(k, &h, offset, line_here, stop), fwd);
                    assert_eq!(lines_bwd_with(k, &h, offset, line_here, stop), bwd);
                }
            }
        }
    }
}

#[test]
fn forward_result_is_line_start() {
    let h = random_haystack(11, 400, 6);
    for stop in 1..20isize {
        let (pos, line) = lines_fwd(&h, 0, 0, stop);
        let before = h[..pos].iter().filter(|&&b| b == b'\n').count() as isize;
        assert_eq!(before, line);
        if line == stop {
            assert_eq!(h[pos - 1], b'\n');
        }
    }
}

#[test]
fn forward_line_monotone_in_target() {
    let h = random_haystack(5, 250, 4);
    for offset in [0usize, 17, 100, 250] {
        let mut prev = isize::MIN;
        for stop in -2..80isize {
            let (_, line) = lines_fwd(&h, offset, 0, stop);
            assert!(line >= prev);
            prev = line;
        }
    }
}

#[test]
fn count_newlines_in_range() {
    let h = b"\n\nab\nc\n";
    assert_eq!(count_newlines(h, 0, 7), 4);
    assert_eq!(count_newlines(h, 2, 5), 1);
    assert_eq!(count_newlines(h, 3, 3), 0);
}

#[test]
fn kernel_windows() {
    assert_eq!(Kernel::Scalar.window(), 1);
    assert_eq!(Kernel::Wide16.window(), 16);
    assert_eq!(Kernel::Wide32.window(), 32);
}

#[test]
fn kernel_selection_by_platform() {
    assert_eq!(select_kernel(Platform::X86, true), Kernel::Wide32);
    assert_eq!(select_kernel(Platform::X86, false), Kernel::Scalar);
    assert_eq!(select_kernel(Platform::Aarch64, false), Kernel::Wide16);
    assert_eq!(select_kernel(Platform::Other, true), Kernel::Scalar);
}

#[test]
fn dispatcher_resolves_once() {
    let mut d = Dispatcher::new();
    assert_eq!(d.resolved(), None);
    assert_eq!(d.resolve(Platform::X86, true), Kernel::Wide32);
    assert_eq!(d.resolved(), Some(Kernel::Wide32));
    // A later probe result does not change the stored choice.
    assert_eq!(d.resolve(Platform::X86, false), Kernel::Wide32);
    assert_eq!(d.resolve(Platform::Other, false), Kernel::Wide32);
}
