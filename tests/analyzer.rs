use freeq::analyzer::{BIN_COUNT, FFT_SIZE};
use freeq::{Completed, OverlapWindows};

#[test]
fn new_windows_are_filled() {
    let w = OverlapWindows::new(0.0f32);
    assert_eq!(w.cursor(), 0);
    assert_eq!(w.window(false).len(), FFT_SIZE);
    assert_eq!(w.window(true).len(), FFT_SIZE);
    assert!(w.window(false).iter().all(|&x| x == 0.0));
    assert_eq!(BIN_COUNT, FFT_SIZE / 2 + 1);
}

#[test]
fn first_push_lands_in_both_windows() {
    let mut w = OverlapWindows::new(0i32);
    assert_eq!(w.push(7), Completed::Nothing);
    assert_eq!(w.cursor(), 1);
    assert_eq!(w.window(false)[0], 7);
    assert_eq!(w.window(true)[FFT_SIZE / 2], 7);
    assert_eq!(w.window(true)[0], 0);
}

#[test]
fn two_completions_per_cycle() {
    let mut w = OverlapWindows::new(0u32);
    let mut fired = Vec::new();
    for i in 0..FFT_SIZE {
        let r = w.push(i as u32);
        if r != Completed::Nothing {
            fired.push((r, w.cursor()));
        }
    }
    assert_eq!(
        fired,
        vec![(Completed::WindowB, FFT_SIZE / 2), (Completed::WindowA, 0)]
    );
}

#[test]
fn two_completions_per_cycle_from_any_start() {
    let mut w = OverlapWindows::new(0u32);
    for i in 0..1000 {
        w.push(i);
    }
    let mut count = 0;
    for i in 0..FFT_SIZE {
        if w.push(i as u32) != Completed::Nothing {
            count += 1;
        }
    }
    assert_eq!(count, 2);
}

#[test]
fn completed_window_holds_last_samples_in_order() {
    let mut w = OverlapWindows::new(0u32);
    let total = 3 * FFT_SIZE + FFT_SIZE / 2;
    let mut seen = 0;
    for i in 0..total {
        let r = w.push(i as u32);
        if i + 1 >= FFT_SIZE && r != Completed::Nothing {
            let is_b = r == Completed::WindowB;
            let window = w.window(is_b);
            let first = (i + 1 - FFT_SIZE) as u32;
            for (p, &x) in window.iter().enumerate() {
                assert_eq!(x, first + p as u32);
            }
            seen += 1;
        }
    }
    assert_eq!(seen, 6);
}
