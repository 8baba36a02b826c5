//! The scalar field, the configuration rules, and the two presets.

use river::config::{Config, ConfigError};
use river::field::Heightmap;
use river::preset::{apply_preset, cos_fx, sin_fx, Preset};
use river::river::River;
use river::vec2::Vec2Fx;

fn v(x: i64, y: i64) -> Vec2Fx {
    Vec2Fx { x, y }
}

#[test]
fn config_default_is_standard_tuning() {
    let c = Config::default();
    assert_eq!(c.point_spacing, 5000);
    assert_eq!(c.min_distance, 15_000);
    assert_eq!(c.tangent_weight, 3);
    assert_eq!(c.bitangent_weight, -7);
    assert_eq!(c.gradient_weight, 35);
    assert_eq!(c.speed, 3);
    assert_eq!(c.max_step_ms, 200);
}

#[test]
fn config_rejects_each_bad_value() {
    let mk = |sp: i64, md: i64, eps: i64, tw: i64, bw: i64, gw: i64, speed: i64, ms: u64| {
        Config::new(sp, md, eps, tw, bw, gw, speed, ms)
    };
    assert_eq!(mk(0, 15_000, 100, 3, -7, 35, 3, 200), Err(ConfigError::NonPositiveSpacing));
    assert_eq!(mk(-5, 15_000, 100, 3, -7, 35, 3, 200), Err(ConfigError::NonPositiveSpacing));
    assert_eq!(mk(5000, 4999, 100, 3, -7, 35, 3, 200), Err(ConfigError::MinDistanceBelowSpacing));
    assert_eq!(
        mk(5000, 20_000_000, 100, 3, -7, 35, 3, 200),
        Err(ConfigError::ExcessiveMinDistance)
    );
    assert_eq!(mk(5000, 15_000, -1, 3, -7, 35, 3, 200), Err(ConfigError::EpsilonOutOfRange));
    assert_eq!(mk(5000, 15_000, 100, 1001, -7, 35, 3, 200), Err(ConfigError::WeightOutOfRange));
    assert_eq!(mk(5000, 15_000, 100, 3, -1001, 35, 3, 200), Err(ConfigError::WeightOutOfRange));
    assert_eq!(mk(5000, 15_000, 100, 3, -7, 1001, 3, 200), Err(ConfigError::WeightOutOfRange));
    assert_eq!(mk(5000, 15_000, 100, 3, -7, 35, 0, 200), Err(ConfigError::SpeedOutOfRange));
    assert_eq!(mk(5000, 15_000, 100, 3, -7, 35, 3, 0), Err(ConfigError::StepLimitOutOfRange));
    let ok = mk(5000, 15_000, 100, 3, -7, 35, 3, 200).unwrap();
    assert_eq!(ok, Config::default());
}

#[test]
fn heightmap_rejects_bad_scale_and_extent() {
    assert_eq!(Heightmap::new(1, 0, 1000, 1000), Err(ConfigError::ScaleOutOfRange));
    assert_eq!(Heightmap::new(1, -10, 1000, 1000), Err(ConfigError::ScaleOutOfRange));
    assert_eq!(Heightmap::new(1, 1000, -1, 1000), Err(ConfigError::ExtentOutOfRange));
    assert_eq!(Heightmap::new(1, 1000, 1000, 20_000_000), Err(ConfigError::ExtentOutOfRange));
    assert!(Heightmap::new(1, 1000, 1000, 1000).is_ok());
}

#[test]
fn heightmap_bounded_and_deterministic() {
    let h1 = Heightmap::new(42, 100_000, 360_000, 360_000).unwrap();
    let h2 = Heightmap::new(42, 100_000, 360_000, 360_000).unwrap();
    let mut seen_nonzero = false;
    for ix in -5..6i64 {
        for iy in -5..6i64 {
            let p = v(ix * 50_000, iy * 50_000);
            let a = h1.get(p);
            let b = h2.get(p);
            assert_eq!(a, b, "same seed and scale must give the same field");
            assert!(-1000 <= a && a <= 1000);
            if a != 0 {
                seen_nonzero = true;
            }
        }
    }
    assert!(seen_nonzero, "the field should not be identically zero");
}

#[test]
fn heightmap_differs_between_seeds() {
    let h1 = Heightmap::new(1, 100_000, 360_000, 360_000).unwrap();
    let h2 = Heightmap::new(2, 100_000, 360_000, 360_000).unwrap();
    let mut differs = false;
    for ix in -5..6i64 {
        for iy in -5..6i64 {
            let p = v(ix * 47_000, iy * 31_000);
            if h1.get(p) != h2.get(p) {
                differs = true;
            }
        }
    }
    assert!(differs, "different seeds should give different fields");
}

#[test]
fn heightmap_dry_land_outside_bounds() {
    let h = Heightmap::new(9, 100_000, 360_000, 360_000).unwrap();
    assert_eq!(h.get(v(360_000, 0)), 1000);
    assert_eq!(h.get(v(-360_000, 0)), 1000);
    assert_eq!(h.get(v(0, 400_000)), 1000);
    assert_eq!(h.get(v(1_000_000, 1_000_000)), 1000);
}

#[test]
fn sine_quarter_points() {
    assert_eq!(sin_fx(0), 0);
    assert_eq!(sin_fx(1024), 1000);
    assert_eq!(sin_fx(2048), 0);
    assert_eq!(sin_fx(3072), -1000);
    assert_eq!(cos_fx(0), 1000);
    assert_eq!(cos_fx(2048), -1000);
    for a in 0..4096i64 {
        let s = sin_fx(a);
        assert!(-1000 <= s && s <= 1000);
    }
}

#[test]
fn preset_across_seeds_open_wave() {
    let mut r = River::default();
    let p = Preset::default();
    apply_preset(&mut r, &p).unwrap();
    assert!(!r.closed);
    assert_eq!(r.segments.len(), 498);
    assert_eq!(r.start.loc.x, -359_900);
    assert_eq!(r.end.loc.x, 360_100);
    // twenty radians of sine: the ends sit at 0.1*sin(-20)*360 and
    // 0.1*sin(20)*360 world units, symmetric about the axis
    assert_eq!(r.start.loc.y, -r.end.loc.y);
    assert!(r.start.loc.y < -30_000);
    // the wave must actually go up and down
    let mut min_y = i64::MAX;
    let mut max_y = i64::MIN;
    for n in &r.segments {
        min_y = min_y.min(n.loc.y);
        max_y = max_y.max(n.loc.y);
    }
    assert!(max_y > 20_000 && min_y < -20_000);
}

#[test]
fn preset_circle_seeds_closed_loop() {
    let mut r = River::default();
    let p = Preset::CIRCLE { radius: 216_000, points: 100 };
    apply_preset(&mut r, &p).unwrap();
    assert!(r.closed);
    assert_eq!(r.segments.len(), 98);
    assert_eq!(r.start.loc, v(0, 216_000));
    // every sample sits near the circle of radius 216
    let mut check = |p: Vec2Fx| {
        let d2 = p.x * p.x + p.y * p.y;
        let r2 = 216_000i64 * 216_000;
        assert!((d2 - r2).abs() <= 2 * 216_000 * 600, "sample off the circle: {:?}", p);
    };
    check(r.start.loc);
    check(r.end.loc);
    for n in &r.segments {
        check(n.loc);
    }
}

#[test]
fn preset_rejects_bad_parameters() {
    let mut r = River::default();
    let p = Preset::CIRCLE { radius: 0, points: 100 };
    assert_eq!(apply_preset(&mut r, &p), Err(ConfigError::ExtentOutOfRange));
    let p2 = Preset::CIRCLE { radius: 216_000, points: 2 };
    assert_eq!(apply_preset(&mut r, &p2), Err(ConfigError::ExtentOutOfRange));
}
