use digirain::config::{Config, Prob};
use digirain::line::Line;
use digirain::rain::Rain;

/// A configuration whose every random effect is switched off.
fn quiet_config() -> Config {
    let mut cfg = Config::default();
    cfg.prob_symbol_change = Prob { num: 0, den: 1 };
    cfg.prob_glow = Prob { num: 0, den: 1 };
    cfg.prob_dim = Prob { num: 0, den: 1 };
    cfg.prob_decay = Prob { num: 0, den: 1 };
    cfg.prob_drop = Prob { num: 0, den: 1 };
    cfg.drop_space_len = 1;
    cfg.min_drop_fall_int = 1;
    cfg.max_drop_fall_int = 1;
    cfg
}

fn symbols() -> Vec<char> {
    vec![' ', 'A', 'B', 'C']
}

#[test]
fn quiescent_grid_is_stable_forever() {
    let mut rain = Rain::new(quiet_config(), symbols(), 42);
    rain.update_frame_size(10, 10);
    let snapshot = rain.runes.clone();
    for _ in 0..10 {
        rain.update();
    }
    assert_eq!(rain.runes, snapshot);
    assert!(rain.lines.is_empty());
}

#[test]
fn head_row_is_monotone_and_drop_is_pruned() {
    let mut rain = Rain::new(quiet_config(), symbols(), 42);
    rain.update_frame_size(10, 10);
    rain.add_line(Line {
        column: 2,
        head_row: 0,
        length: 5,
        fall_interval: 1,
        ticks_since_move: 0,
    });
    let mut last_head: u32 = 0;
    // The tail crosses the bottom edge when head_row reaches
    // length + height = 15; the streak must be gone that same tick.
    for tick in 1..=14u32 {
        rain.update();
        assert_eq!(rain.lines.len(), 1);
        assert!(rain.lines[0].head_row >= last_head);
        assert_eq!(rain.lines[0].head_row, tick);
        last_head = rain.lines[0].head_row;
    }
    rain.update();
    assert!(rain.lines.is_empty());
}

#[test]
fn injected_drop_paints_the_documented_gradient() {
    let mut rain = Rain::new(quiet_config(), symbols(), 42);
    rain.update_frame_size(10, 10);
    rain.add_line(Line {
        column: 3,
        head_row: 0,
        length: 5,
        fall_interval: 1,
        ticks_since_move: 0,
    });
    for _ in 0..5 {
        rain.update();
    }
    assert_eq!(rain.lines.len(), 1);
    assert_eq!(rain.lines[0].head_row, 5);
    // Visible part is length - gap = 4: a quantized ramp, then pure
    // green just behind the head, then the white head.
    let expected: [u32; 5] = [0x6600, 0x7f00, 0xb200, 0x00ff00, 0xffffff];
    for row in 0..5usize {
        assert_eq!(rain.runes[row][3].color, expected[row]);
    }
    // Off the streak's column everything stayed black.
    for row in 0..10usize {
        for col in 0..10usize {
            if col != 3 {
                assert_eq!(rain.runes[row][col].color, 0);
            }
        }
    }
    // The same cells through the bounds-checked accessor.
    assert_eq!(rain.rune_at(4, 3).map(|rn| rn.color), Some(0xffffff));
    assert_eq!(rain.rune_at(10, 3), None);
    assert_eq!(rain.rune_at(0, 10), None);
}

#[test]
fn deterministic_aging_with_certain_trials() {
    let mut cfg = quiet_config();
    cfg.prob_glow = Prob { num: 1, den: 1 };
    cfg.prob_dim = Prob { num: 1, den: 1 };
    cfg.prob_decay = Prob { num: 1, den: 1 };
    let mut rain = Rain::new(cfg, symbols(), 42);
    rain.update_frame_size(2, 2);
    rain.update_background_noise();
    // Glow, then dim overriding it, then one decay step:
    // 0x66 * 9 / 10 = 0x5b.
    for row in 0..2usize {
        for col in 0..2usize {
            assert_eq!(rain.runes[row][col].color, 0x5b00);
        }
    }
}

#[test]
fn certain_spawn_produces_one_drop_per_tick() {
    let mut cfg = quiet_config();
    cfg.prob_drop = Prob { num: 1, den: 1 };
    let mut rain = Rain::new(cfg, symbols(), 42);
    rain.update_frame_size(10, 10);
    rain.update_lines();
    assert_eq!(rain.lines.len(), 1);
    let l = rain.lines[0];
    assert!(l.column < 10);
    // Spawned at the top, then advanced once within the same tick.
    assert_eq!(l.head_row, 1);
    let cfg = quiet_config();
    let lo = cfg.min_drop_len as u32 + cfg.drop_space_len as u32;
    let hi = cfg.max_drop_len as u32 + cfg.drop_space_len as u32;
    assert!(lo <= l.length && l.length <= hi);
}

#[test]
fn spawn_respects_the_capacity_bound() {
    let mut cfg = quiet_config();
    cfg.prob_drop = Prob { num: 1, den: 1 };
    let mut rain = Rain::new(cfg, symbols(), 42);
    rain.update_frame_size(10, 2);
    for _ in 0..5 {
        rain.update_lines();
    }
    assert!(rain.lines.len() <= 2);
}

#[test]
fn pause_freezes_the_simulation() {
    let mut cfg = quiet_config();
    cfg.prob_glow = Prob { num: 1, den: 1 };
    let mut rain = Rain::new(cfg, symbols(), 42);
    rain.update_frame_size(4, 4);
    rain.pause();
    let snapshot = rain.runes.clone();
    rain.update();
    assert_eq!(rain.runes, snapshot);
    rain.play();
    rain.update();
    assert_ne!(rain.runes, snapshot);
}
