use digirain::clamp;
use digirain::clamp_min_zero;
use digirain::config::{Config, ConfigError, Prob};
use digirain::current_time_millis;
use digirain::random_item;
use digirain::rune::Rune;

#[test]
fn clamp_inside_range() {
    assert_eq!(clamp(5, 0, 10), 5);
}

#[test]
fn clamp_below_range() {
    assert_eq!(clamp(-3, 0, 10), 0);
}

#[test]
fn clamp_above_range() {
    assert_eq!(clamp(15, 0, 10), 10);
}

#[test]
fn clamp_empty_range_lower_bound_wins() {
    assert_eq!(clamp(5, 7, 3), 7);
}

#[test]
fn clamp_min_zero_values() {
    assert_eq!(clamp_min_zero(5, 10), 5);
    assert_eq!(clamp_min_zero(-2, 10), 0);
    assert_eq!(clamp_min_zero(12, 10), 10);
    assert_eq!(clamp_min_zero(3, -1), 0);
}

#[test]
fn rune_channel_getters() {
    let rn = Rune { symbol_index: 0, color: 0xABCDEF };
    assert_eq!(rn.r(), 0xAB);
    assert_eq!(rn.g(), 0xCD);
    assert_eq!(rn.b(), 0xEF);
}

#[test]
fn rune_default_is_blank_black() {
    let rn = Rune::default();
    assert_eq!(rn.symbol_index, 0);
    assert_eq!(rn.color, 0);
}

#[test]
fn random_item_picks_from_slice() {
    let mut rng = rand::rng();
    let items: [u32; 3] = [7, 11, 13];
    for _ in 0..50 {
        let picked = random_item(&items, &mut rng);
        assert!(items.contains(&picked));
    }
}

#[test]
fn current_time_millis_is_after_epoch() {
    let t = current_time_millis();
    assert!(t > 0);
}

#[test]
fn default_config_is_valid() {
    let cfg = Config::default();
    assert!(cfg.validate().is_ok());
    assert_eq!(cfg.fps, 60);
    assert_eq!(cfg.glow_value, 0x6e);
    assert_eq!(cfg.dim_value, 0x66);
}

#[test]
fn config_rejects_bad_probability() {
    let mut cfg = Config::default();
    cfg.prob_glow = Prob { num: 2, den: 1 };
    assert_eq!(cfg.validate(), Err(ConfigError::InvalidProbability));
    cfg.prob_glow = Prob { num: 0, den: 0 };
    assert_eq!(cfg.validate(), Err(ConfigError::InvalidProbability));
}

#[test]
fn config_rejects_decay_scalar_of_one_or_more() {
    let mut cfg = Config::default();
    cfg.decay_num = 10;
    cfg.decay_den = 10;
    assert_eq!(cfg.validate(), Err(ConfigError::InvalidDecayScalar));
}

#[test]
fn config_rejects_empty_length_range() {
    let mut cfg = Config::default();
    cfg.min_drop_len = 5;
    cfg.max_drop_len = 3;
    assert_eq!(cfg.validate(), Err(ConfigError::InvalidDropLenRange));
    cfg.min_drop_len = 0;
    cfg.max_drop_len = 3;
    assert_eq!(cfg.validate(), Err(ConfigError::InvalidDropLenRange));
}

#[test]
fn config_rejects_empty_fall_interval_range() {
    let mut cfg = Config::default();
    cfg.min_drop_fall_int = 0;
    assert_eq!(cfg.validate(), Err(ConfigError::InvalidFallIntRange));
}

#[test]
fn config_rejects_zero_segments() {
    let mut cfg = Config::default();
    cfg.drop_segments = 0;
    assert_eq!(cfg.validate(), Err(ConfigError::InvalidSegments));
}

#[test]
fn config_rejects_zero_channel_size() {
    let mut cfg = Config::default();
    cfg.channel_size = 0;
    assert_eq!(cfg.validate(), Err(ConfigError::InvalidChannelSize));
}
