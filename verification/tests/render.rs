use digirain::config::{Config, Prob};
use digirain::rain::Rain;

/// A configuration whose every random effect is switched off.
fn quiet_config() -> Config {
    let mut cfg = Config::default();
    cfg.prob_symbol_change = Prob { num: 0, den: 1 };
    cfg.prob_glow = Prob { num: 0, den: 1 };
    cfg.prob_dim = Prob { num: 0, den: 1 };
    cfg.prob_decay = Prob { num: 0, den: 1 };
    cfg.prob_drop = Prob { num: 0, den: 1 };
    cfg
}

fn text(out: Vec<char>) -> String {
    out.into_iter().collect()
}

#[test]
fn rendering_an_unchanged_frame_emits_nothing() {
    let mut rain = Rain::new(quiet_config(), vec![' '], 7);
    rain.update_frame_size(6, 4);
    let first = rain.render();
    assert!(!first.is_empty());
    let second = rain.render();
    assert!(second.is_empty());
    rain.update();
    let third = rain.render();
    assert!(third.is_empty());
}

#[test]
fn resize_shrinks_the_frame_and_forces_a_full_redraw() {
    let mut cfg = quiet_config();
    cfg.half_width = true;
    let mut rain = Rain::new(cfg, vec![' '], 7);
    rain.update_frame_size(10, 10);
    rain.render();
    rain.update_frame_size(4, 3);
    assert_eq!(rain.runes.len(), 3);
    for row in &rain.runes {
        assert_eq!(row.len(), 4);
    }
    assert!(rain.needs_refresh);
    let out = text(rain.render());
    assert!(!rain.needs_refresh);
    // Every cell is dirty: one cursor move per row, then the row's four
    // black cells (narrow mode pads each glyph with a space).
    let cell = "\x1b[38;2;0;0;0m  ";
    let mut expected = String::new();
    for row in 1..=3u16 {
        expected.push_str(&format!("\x1b[{};1H", row));
        for _ in 0..4 {
            expected.push_str(cell);
        }
    }
    assert_eq!(out, expected);
}

#[test]
fn single_dirty_cell_gets_one_positioned_write() {
    let mut rain = Rain::new(quiet_config(), vec![' '], 7);
    rain.update_frame_size(3, 3);
    rain.render();
    rain.runes[1][2].color = 0xff0000;
    let out = text(rain.render());
    // Wide mode: logical column 2 sits at terminal column 5.
    assert_eq!(out, "\x1b[2;5H\x1b[38;2;255;0;0m ");
}

#[test]
fn adjacent_dirty_cells_share_one_cursor_move() {
    let mut rain = Rain::new(quiet_config(), vec![' '], 7);
    rain.update_frame_size(4, 2);
    rain.render();
    rain.runes[1][1].color = 0x00ff00;
    rain.runes[1][2].color = 0x0000ff;
    let out = text(rain.render());
    assert_eq!(out, "\x1b[2;3H\x1b[38;2;0;255;0m \x1b[38;2;0;0;255m ");
}

#[test]
fn cursor_moves_render_multi_digit_coordinates() {
    let mut rain = Rain::new(quiet_config(), vec![' '], 7);
    rain.update_frame_size(13, 12);
    rain.render();
    rain.runes[11][12].color = 0x0a141e;
    let out = text(rain.render());
    // Logical column 12 sits at terminal column 25 in wide mode.
    assert_eq!(out, "\x1b[12;25H\x1b[38;2;10;20;30m ");
}

#[test]
fn render_while_paused_emits_nothing_and_keeps_state() {
    let mut rain = Rain::new(quiet_config(), vec![' '], 7);
    rain.update_frame_size(3, 3);
    rain.pause();
    let out = rain.render();
    assert!(out.is_empty());
    assert!(rain.needs_refresh);
    rain.play();
    let out2 = rain.render();
    assert!(!out2.is_empty());
}

#[test]
fn half_width_pads_and_maps_columns_one_to_one() {
    let mut cfg = quiet_config();
    cfg.half_width = true;
    let mut rain = Rain::new(cfg, vec![' '], 7);
    rain.update_frame_size(3, 2);
    rain.render();
    rain.runes[0][2].color = 0x123456;
    let out = text(rain.render());
    assert_eq!(out, "\x1b[1;3H\x1b[38;2;18;52;86m  ");
}
