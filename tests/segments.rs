use color_mixer::segment::default_segments;
use color_mixer::{ConfigError, Segment, Srgb8, Sweep};

const C1: Srgb8 = Srgb8 { red: 255, green: 150, blue: 0 };
const C2: Srgb8 = Srgb8 { red: 255, green: 10, blue: 120 };

fn seg(chill_idx: usize, chill_fac: u32) -> Segment {
    Segment::new_with_uuid(7, 1, false, C1, C2, chill_idx, chill_fac, 10)
}

#[test]
fn chill_ms_is_factor_times_table_entry() {
    assert_eq!(seg(0, 100).chill_ms(), Ok(700));
    assert_eq!(seg(3, 100).chill_ms(), Ok(1700));
    assert_eq!(seg(21, 2).chill_ms(), Ok(194));
}

#[test]
fn period_table_is_the_prime_table() {
    let primes = [7u32, 11, 13, 17, 19, 23, 29, 31, 37, 41, 43, 47, 53, 59, 61, 67, 71, 73, 79, 83, 89, 97];
    for (i, p) in primes.iter().enumerate() {
        assert_eq!(seg(i, 1).chill_ms(), Ok(*p));
    }
}

#[test]
fn chill_ms_config_errors() {
    assert_eq!(seg(22, 100).chill_ms(), Err(ConfigError::ChillIndexOutOfRange));
    assert_eq!(seg(0, 0).chill_ms(), Err(ConfigError::ZeroPeriod));
    assert_eq!(seg(21, u32::MAX).chill_ms(), Err(ConfigError::PeriodOverflow));
    assert_eq!(seg(22, 100).sweep_at(5), Err(ConfigError::ChillIndexOutOfRange));
    assert_eq!(seg(0, 0).sweep_at(5), Err(ConfigError::ZeroPeriod));
}

#[test]
fn valid_periods_are_positive() {
    for idx in 0..22 {
        for fac in [1u32, 2, 100, 1000] {
            assert!(seg(idx, fac).chill_ms().unwrap() > 0);
        }
    }
}

#[test]
fn sweep_starts_on_first_colour() {
    let s = seg(0, 100).sweep_at(0).unwrap();
    assert_eq!(s, Sweep { from: C1, to: C2, num: 0, den: 700 });
    assert_eq!(s.exact(), Some(C1));
}

#[test]
fn sweep_first_half() {
    let s = seg(0, 100).sweep_at(100).unwrap();
    assert_eq!(s, Sweep { from: C1, to: C2, num: 200, den: 700 });
    assert_eq!(s.exact(), None);
}

#[test]
fn sweep_midpoint_is_second_colour() {
    let s = seg(0, 100).sweep_at(350).unwrap();
    assert_eq!(s, Sweep { from: C2, to: C1, num: 0, den: 700 });
    assert_eq!(s.exact(), Some(C2));
}

#[test]
fn sweep_second_half_heads_back() {
    let s = seg(0, 100).sweep_at(699).unwrap();
    assert_eq!(s, Sweep { from: C2, to: C1, num: 698, den: 700 });
}

#[test]
fn sweep_is_periodic() {
    let sg = seg(4, 30);
    let p = sg.chill_ms().unwrap();
    for t in [0u32, 1, 17, 284, 569, 570, 1000, 123456] {
        assert_eq!(sg.sweep_at(t), sg.sweep_at(t + p));
    }
}

#[test]
fn default_seed_end_to_end() {
    let segs = default_segments();
    assert_eq!(segs.len(), 4);
    let firsts = [
        Srgb8::new(255, 150, 0),
        Srgb8::new(166, 0, 255),
        Srgb8::new(20, 200, 141),
        Srgb8::new(200, 20, 30),
    ];
    let seconds = [
        Srgb8::new(255, 10, 120),
        Srgb8::new(2, 192, 192),
        Srgb8::new(200, 176, 20),
        Srgb8::new(200, 200, 10),
    ];
    for (i, s) in segs.iter().enumerate() {
        assert_eq!(s.chill_idx(), i);
        assert_eq!(s.chill_fac(), 100);
        assert_eq!(s.brightness(), 10);
        assert_eq!(s.length(), 1);
        assert_eq!(s.sweep_at(0).unwrap().exact(), Some(firsts[i]));
        let p = s.chill_ms().unwrap();
        assert_eq!(s.sweep_at(p / 2).unwrap().exact(), Some(seconds[i]));
    }
}

#[test]
fn uuid_text_is_hyphenated_lowercase() {
    let s = Segment::new_with_uuid(0xa1a2a3a4b1b2c1c2d1d2d3d4d5d6d7d8, 1, false, C1, C2, 0, 1, 1);
    assert_eq!(s.to_uuid_string(), "a1a2a3a4-b1b2-c1c2-d1d2-d3d4d5d6d7d8");
    assert_eq!(s.uuid(), 0xa1a2a3a4b1b2c1c2d1d2d3d4d5d6d7d8);
}

#[test]
fn new_segments_get_distinct_ids() {
    let a = Segment::new(1, false, C1, C2, 0, 1, 1);
    let b = Segment::new(1, false, C1, C2, 0, 1, 1);
    assert_ne!(a.uuid(), b.uuid());
    assert_eq!(a.to_uuid_string().len(), 36);
}

#[test]
fn default_segment() {
    let s = Segment::default();
    assert_eq!(*s.color_1(), Srgb8::new(255, 150, 0));
    assert_eq!(*s.color_2(), Srgb8::new(255, 10, 220));
    assert_eq!(s.chill_ms(), Ok(560));
    assert_eq!(s.brightness(), 10);
    assert!(!s.bgr);
}

#[test]
fn setters_change_one_field() {
    let mut s = seg(0, 100);
    s.set_chill_idx(2);
    s.set_chill_fac(3);
    s.set_length(9);
    s.set_brightness(50);
    s.colors_mut()[1].0 = Srgb8::new(1, 2, 3);
    assert_eq!(s.chill_ms(), Ok(39));
    assert_eq!(s.length(), 9);
    assert_eq!(s.brightness(), 50);
    assert_eq!(*s.color_2(), Srgb8::new(1, 2, 3));
    assert_eq!(*s.color_1(), C1);
}
