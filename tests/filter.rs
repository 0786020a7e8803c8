use freeq::filter::{default_kind, is_edge_band, BANDS, CHANNELS};
use freeq::{Coefficients, Filter, FilterBank, FilterKind, FilterState};

fn biquad(s: FilterState<f32>, x: f32) -> f32 {
    s.b0 * x + s.b1 * s.z1 + s.b2 * s.z2 - s.a1 * s.y1 - s.a2 * s.y2
}

fn simple() -> Coefficients<f32> {
    Coefficients { b0: 0.5, b1: 0.25, b2: 0.0, a1: -0.5, a2: 0.0 }
}

fn gain_of(c: Coefficients<f32>) -> impl Fn(Filter<f32>) -> Coefficients<f32> {
    move |f: Filter<f32>| Coefficients { b0: f.gain, ..c }
}

#[test]
fn default_kinds_of_ten_bands() {
    let kinds: Vec<FilterKind> = (0..10).map(|i| default_kind(i, 10)).collect();
    assert_eq!(kinds[0], FilterKind::LowShelf);
    assert_eq!(kinds[9], FilterKind::HighShelf);
    assert!(kinds[1..9].iter().all(|&k| k == FilterKind::Peak));
    let edges: Vec<u32> = (0..10).filter(|&i| is_edge_band(i, 10)).collect();
    assert_eq!(edges, vec![0, 9]);
    assert!(is_edge_band(0, 1));
    assert_eq!(default_kind(0, 1), FilterKind::LowShelf);
}

#[test]
fn new_band_settings() {
    let first = Filter::new(0, 10, 28.2f32, 0.0, 0.5, 2.0);
    assert_eq!(first.kind, FilterKind::LowShelf);
    assert_eq!(first.q, 0.5);
    assert_eq!(first.gain, 0.0);
    assert_eq!(first.freq, 28.2);
    assert!(first.enabled);
    let mid = Filter::new(4, 10, 800.0f32, 0.0, 0.5, 2.0);
    assert_eq!(mid.kind, FilterKind::Peak);
    assert_eq!(mid.q, 2.0);
    let last = Filter::new(9, 10, 14000.0f32, 0.0, 0.5, 2.0);
    assert_eq!(last.kind, FilterKind::HighShelf);
    assert_eq!(last.q, 0.5);
}

#[test]
fn kind_change_clears_unused_gain() {
    let mut f = Filter::new(4, 10, 1000.0f32, 0.0, 0.5, 2.0);
    f.gain = 6.0;
    f.prev_kind(0.0);
    assert_eq!(f.kind, FilterKind::HighShelf);
    assert_eq!(f.gain, 6.0);
    f.next_kind(0.0);
    f.next_kind(0.0);
    assert_eq!(f.kind, FilterKind::Notch);
    assert_eq!(f.gain, 0.0);
    assert_eq!(f.freq, 1000.0);
    assert_eq!(f.q, 2.0);
    f.gain = 3.0;
    f.set_kind(FilterKind::LowPass, 0.0);
    assert_eq!(f.gain, 0.0);
}

#[test]
fn section_recurrence_exact_values() {
    let mut s = FilterState::new(0.0f32);
    s.set_coefficients(simple());
    let out: Vec<f32> = [1.0, 0.0, 0.0, 0.0].iter().map(|&x| s.process_with(x, &biquad)).collect();
    assert_eq!(out, vec![0.5, 0.5, 0.25, 0.125]);
    assert_eq!((s.z1, s.z2, s.y1, s.y2), (0.0, 0.0, 0.125, 0.25));
}

#[test]
fn coefficient_change_keeps_delay_line() {
    let mut s = FilterState::new(0.0f32);
    s.set_coefficients(simple());
    s.process_with(1.0, &biquad);
    s.process_with(2.0, &biquad);
    let (z1, z2, y1, y2) = (s.z1, s.z2, s.y1, s.y2);
    s.set_coefficients(Coefficients { b0: 1.0, b1: 0.0, b2: 0.0, a1: 0.0, a2: 0.0 });
    assert_eq!((s.z1, s.z2, s.y1, s.y2), (z1, z2, y1, y2));
    assert_eq!((z1, z2), (2.0, 1.0));
    assert_eq!(s.coefficients().b0, 1.0);
}

#[test]
fn low_pass2_impulse_response_decays() {
    // second-order low pass at 1 kHz, Q 0.707, 44.1 kHz
    let w0 = 2.0 * std::f32::consts::PI * 1000.0 / 44100.0;
    let cos_w0 = w0.cos();
    let alpha = w0.sin() / (2.0 * 0.707);
    let a0 = 1.0 + alpha;
    let c = Coefficients {
        b0: (1.0 - cos_w0) / 2.0 / a0,
        b1: (1.0 - cos_w0) / a0,
        b2: (1.0 - cos_w0) / 2.0 / a0,
        a1: -2.0 * cos_w0 / a0,
        a2: (1.0 - alpha) / a0,
    };
    let mut s = FilterState::new(0.0f32);
    s.set_coefficients(c);
    let mut peak_early = 0.0f32;
    let mut late = 0.0f32;
    for n in 0..4000 {
        let x = if n == 0 { 1.0 } else { 0.0 };
        let y = s.process_with(x, &biquad);
        assert!(y.is_finite());
        if n < 100 {
            peak_early = peak_early.max(y.abs());
        } else if n >= 3000 {
            late = late.max(y.abs());
        }
    }
    assert!(peak_early > 0.0);
    assert!(late < 1.0e-6);
}

#[test]
fn cascade_feeds_bands_in_order() {
    let mut bank = FilterBank::new(0.0f32);
    let mut filters: Vec<Filter<f32>> = (0..10).map(|i| Filter::new(i, 10, 1000.0, 0.0, 0.5, 2.0)).collect();
    for f in filters.iter_mut() {
        f.gain = 1.0;
    }
    filters[0].gain = 2.0;
    filters[1].gain = 3.0;
    bank.configure(&filters, &gain_of(Coefficients { b0: 0.0, b1: 0.0, b2: 0.0, a1: 0.0, a2: 0.0 }));
    let enabled = vec![true; BANDS];
    assert_eq!(bank.process(0, &enabled, 1.0, &biquad), 6.0);
    assert_eq!(bank.state(0, 0).z1, 1.0);
    assert_eq!(bank.state(0, 1).z1, 2.0);
    assert_eq!(bank.state(0, 2).z1, 6.0);
    assert_eq!(bank.state(1, 1).z1, 0.0);
    assert_eq!(bank.state(1, 1).b0, 3.0);
}

#[test]
fn all_bands_disabled_pass_through() {
    let mut bank = FilterBank::new(0.0f32);
    let filters: Vec<Filter<f32>> = (0..10).map(|i| Filter::new(i, 10, 1000.0, 0.0, 0.5, 2.0)).collect();
    bank.configure(&filters, &gain_of(simple()));
    let enabled = vec![false; BANDS];
    for c in 0..CHANNELS {
        assert_eq!(bank.process(c, &enabled, 0.75, &biquad), 0.75);
    }
    assert_eq!(bank.state(0, 3).z1, 0.0);
}

#[test]
fn disabled_band_freezes_and_resumes() {
    let mut bank = FilterBank::new(0.0f32);
    for band in 0..BANDS {
        bank.set_coefficients(band, Coefficients { b0: 1.0, b1: 0.0, b2: 0.0, a1: 0.0, a2: 0.0 });
    }
    bank.set_coefficients(3, simple());
    let mut enabled = vec![false; BANDS];
    enabled[3] = true;
    assert_eq!(bank.process(0, &enabled, 1.0, &biquad), 0.5);
    assert_eq!(bank.process(0, &enabled, 2.0, &biquad), 1.5);
    let frozen = bank.state(0, 3);
    assert_eq!((frozen.z1, frozen.z2, frozen.y1, frozen.y2), (2.0, 1.0, 1.5, 0.5));

    enabled[3] = false;
    assert_eq!(bank.process(0, &enabled, 8.0, &biquad), 8.0);
    assert_eq!(bank.process(0, &enabled, 9.0, &biquad), 9.0);
    let still = bank.state(0, 3);
    assert_eq!((still.z1, still.z2, still.y1, still.y2), (2.0, 1.0, 1.5, 0.5));

    enabled[3] = true;
    // resumes from the frozen delay line: 0.5 * 4 + 0.25 * 2 + 0.5 * 1.5
    assert_eq!(bank.process(0, &enabled, 4.0, &biquad), 3.25);
    let resumed = bank.state(0, 3);
    assert_eq!((resumed.z1, resumed.z2, resumed.y1, resumed.y2), (4.0, 2.0, 3.25, 1.5));
    // the other channel never ran
    assert_eq!(bank.state(1, 3).z1, 0.0);
}

#[test]
fn block_keeps_disabled_band_frozen() {
    let mut bank = FilterBank::new(0.0f32);
    for band in 0..BANDS {
        bank.set_coefficients(band, Coefficients { b0: 1.0, b1: 0.0, b2: 0.0, a1: 0.0, a2: 0.0 });
    }
    let c = Coefficients { b0: 0.5, b1: 0.25, b2: 0.125, a1: -0.5, a2: 0.25 };
    bank.set_coefficients(2, c);
    let mut enabled = vec![true; BANDS];
    let mut block = vec![1.0f32];
    bank.process_block(1, &enabled, &mut block, &biquad);
    assert_eq!(block, vec![0.5]);
    let s = bank.state(1, 2);
    assert_eq!((s.z1, s.z2, s.y1, s.y2), (1.0, 0.0, 0.5, 0.0));

    enabled[2] = false;
    let mut block = vec![3.0f32, -2.0, 5.0, 7.0];
    bank.process_block(1, &enabled, &mut block, &biquad);
    assert_eq!(block, vec![3.0, -2.0, 5.0, 7.0]);
    let s = bank.state(1, 2);
    assert_eq!((s.z1, s.z2, s.y1, s.y2), (1.0, 0.0, 0.5, 0.0));

    enabled[2] = true;
    let mut block = vec![2.0f32];
    bank.process_block(1, &enabled, &mut block, &biquad);
    // b0 * 2 + b1 * 1 + b2 * 0 - a1 * 0.5 - a2 * 0
    assert_eq!(block, vec![1.5]);
    let s = bank.state(1, 2);
    assert_eq!((s.z1, s.z2, s.y1, s.y2), (2.0, 1.0, 1.5, 0.5));
    assert_eq!(bank.state(0, 2).z1, 0.0);
}

#[test]
fn block_runs_each_sample_through_cascade() {
    let mut bank = FilterBank::new(0.0f32);
    let filters: Vec<Filter<f32>> = (0..10).map(|i| Filter::new(i, 10, 1000.0, 0.0, 0.5, 2.0)).collect();
    bank.configure(&filters, &|_f: Filter<f32>| Coefficients { b0: 1.0, b1: 0.0, b2: 0.0, a1: 0.0, a2: 0.0 });
    bank.set_coefficients(0, simple());
    let mut enabled = vec![false; BANDS];
    enabled[0] = true;
    let mut block = vec![1.0f32, 0.0, 0.0, 0.0];
    bank.process_block(0, &enabled, &mut block, &biquad);
    assert_eq!(block, vec![0.5, 0.5, 0.25, 0.125]);
}
