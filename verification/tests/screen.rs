use eink_term::glyph::{Glyph, GlyphCache, GlyphMetrics};
use eink_term::render::{Ink, Pixel, PixelRect, Waveform};
use eink_term::screen::{Action, Layout, Terminal, N_COLS, N_ROWS, RES_HEIGHT, RES_WIDTH};

fn glyph_for(c: char) -> Option<Glyph> {
    let advance = if c == 'a' { 19 } else { 23 };
    let metrics = GlyphMetrics { xmin: 1, ymin: -3, width: 2, height: 2, advance };
    Glyph::new(metrics, vec![c as u8, 255, 0, 200])
}

fn terminal() -> Terminal {
    let cache = GlyphCache::build(glyph_for).expect("every character has a glyph");
    Terminal::new(cache, 37, -8)
}

#[test]
fn grid_and_panel_have_their_fixed_sizes() {
    assert_eq!((N_ROWS, N_COLS), (50, 60));
    assert_eq!((RES_WIDTH, RES_HEIGHT), (1404, 1872));
}

#[test]
fn layout_centres_the_grid_on_the_panel() {
    let l = Layout::centered(50, 60, 19, 37);
    assert_eq!(
        l,
        Layout {
            char_width: 19,
            line_height: 37,
            left_padding: (1404 - 60 * 19) / 2,
            top_padding: (1872 - 50 * 37) / 2,
            n_rows: 50,
            n_cols: 60,
        }
    );
    assert_eq!((l.left_padding, l.top_padding), (132, 11));
}

#[test]
fn layout_has_no_padding_where_the_grid_is_larger_than_the_panel() {
    let l = Layout::centered(50, 60, 24, 38);
    assert_eq!((l.left_padding, l.top_padding), (0, 0));
    let l = Layout::centered(50, 60, u32::MAX, u32::MAX);
    assert_eq!((l.left_padding, l.top_padding), (0, 0));
    // 60 * 23 = 1380 leaves 24; 50 * 37 = 1850 leaves 22.
    let l = Layout::centered(50, 60, 23, 37);
    assert_eq!((l.left_padding, l.top_padding), (12, 11));
    // An odd remainder is halved downwards.
    let l = Layout::centered(1, 1, 1401, 1871);
    assert_eq!((l.left_padding, l.top_padding), (1, 0));
}

#[test]
fn new_terminal_starts_in_the_top_left_cell() {
    let t = terminal();
    assert_eq!(t.position(), (0, 0));
    assert_eq!(t.layout(), Layout::centered(50, 60, 19, 37));
    assert_eq!(t.descent(), -8);
    assert_eq!(t.cursor(), (132, 11));
}

#[test]
fn cell_width_is_the_advance_of_the_letter_a() {
    let t = terminal();
    assert_eq!(t.layout().char_width, 19);
    assert_eq!(t.glyph('b').expect("in range").metrics().advance, 23);
}

#[test]
fn cursor_pixel_position_follows_the_cell() {
    let mut t = terminal();
    for _ in 0..3 {
        t.new_line();
    }
    for c in "hello".chars() {
        t.print(c);
    }
    assert_eq!(t.position(), (3, 5));
    assert_eq!(t.cursor(), (5 * 19 + 132, 3 * 37 + 11));
}

#[test]
fn prints_move_the_cursor_one_column_each() {
    let mut t = terminal();
    t.new_line();
    for k in 0..59u32 {
        assert_eq!(t.position(), (1, k));
        let a = t.print('x');
        assert_eq!(a, Action::Draw { c: 'x', x: (k * 19 + 132) as i64, y: 37 + 11 - 8 });
    }
    assert_eq!(t.position(), (1, 59));
}

#[test]
fn printing_a_full_row_wraps_once() {
    let mut t = terminal();
    for _ in 0..60 {
        t.print('x');
    }
    assert_eq!(t.position(), (1, 0));
}

#[test]
fn printing_a_full_last_row_wraps_to_the_top() {
    let mut t = terminal();
    for _ in 0..49 {
        t.new_line();
    }
    assert_eq!(t.position(), (49, 0));
    for _ in 0..60 {
        t.print('x');
    }
    assert_eq!(t.position(), (0, 0));
}

#[test]
fn sixty_first_character_is_drawn_at_the_start_of_the_next_row() {
    let mut t = terminal();
    t.new_line();
    t.new_line();
    let mut last = Action::Nothing;
    for _ in 0..61 {
        last = t.print('m');
    }
    assert_eq!(last, Action::Draw { c: 'm', x: 132, y: 3 * 37 + 11 - 8 });
    assert_eq!(t.position(), (3, 1));
}

#[test]
fn draw_is_shifted_by_the_descent() {
    let cache = GlyphCache::build(glyph_for).expect("every character has a glyph");
    let mut t = Terminal::new(cache, 37, 5);
    assert_eq!(t.print('q'), Action::Draw { c: 'q', x: 132, y: 11 + 5 });
}

#[test]
fn backspace_at_column_zero_does_nothing() {
    let mut t = terminal();
    assert_eq!(t.backspace(), Action::Nothing);
    assert_eq!(t.position(), (0, 0));
    t.new_line();
    assert_eq!(t.backspace(), Action::Nothing);
    assert_eq!(t.position(), (1, 0));
}

#[test]
fn backspace_after_a_print_clears_the_vacated_cell() {
    let mut t = terminal();
    t.new_line();
    t.print('a');
    t.print('b');
    assert_eq!(t.position(), (1, 2));
    let a = t.backspace();
    assert_eq!(t.position(), (1, 1));
    assert_eq!(a, Action::Clear { x: 19 + 132, y: 37 + 11, width: 19, height: 37 });
}

#[test]
fn backspace_does_not_go_back_over_a_wrap() {
    let mut t = terminal();
    for _ in 0..60 {
        t.print('x');
    }
    assert_eq!(t.backspace(), Action::Nothing);
    assert_eq!(t.position(), (1, 0));
}

#[test]
fn delete_character_erases_like_a_backspace() {
    let mut t = terminal();
    t.print('a');
    assert_eq!(t.print('\u{7f}'), Action::Clear { x: 132, y: 11, width: 19, height: 37 });
    assert_eq!(t.position(), (0, 0));
    assert_eq!(t.print('\u{7f}'), Action::Nothing);
    assert_eq!(t.position(), (0, 0));
}

#[test]
fn character_without_a_glyph_is_passed_over() {
    let mut t = terminal();
    t.print('a');
    assert_eq!(t.print('\u{e9}'), Action::Unprintable { c: '\u{e9}' });
    assert_eq!(t.print('\u{17f}'), Action::Unprintable { c: '\u{17f}' });
    assert_eq!(t.print('\u{1b}'), Action::Unprintable { c: '\u{1b}' });
    assert_eq!(t.position(), (0, 1));
}

#[test]
fn line_feed_to_carriage_return_each_start_a_new_line() {
    for byte in 10u8..=13 {
        let mut t = terminal();
        t.print('a');
        t.print('b');
        assert_eq!(t.execute(byte), Action::Nothing);
        assert_eq!(t.position(), (1, 0));
        assert_eq!(t.execute(byte), Action::Nothing);
        assert_eq!(t.position(), (2, 0));
    }
}

#[test]
fn new_line_on_the_last_row_wraps_to_the_top() {
    let mut t = terminal();
    for row in 0..50u32 {
        assert_eq!(t.position(), (row, 0));
        t.print('a');
        t.execute(10);
    }
    assert_eq!(t.position(), (0, 0));
}

#[test]
fn control_byte_8_is_a_backspace() {
    let mut t = terminal();
    t.print('a');
    assert_eq!(t.execute(8), Action::Clear { x: 132, y: 11, width: 19, height: 37 });
    assert_eq!(t.position(), (0, 0));
    assert_eq!(t.execute(8), Action::Nothing);
}

#[test]
fn other_control_bytes_are_passed_over() {
    let mut t = terminal();
    t.print('a');
    for byte in [0u8, 7, 9, 14, 27, 127, 255] {
        assert_eq!(t.execute(byte), Action::Unsupported { byte });
        assert_eq!(t.position(), (0, 1));
    }
}

#[test]
fn render_draws_the_glyph_of_a_draw_request() {
    let mut t = terminal();
    let a = t.print('h');
    let d = t.render(a, &[0, 0, 0, 0]).expect("noise has one value per position");
    // left = 132 + 1; top = (11 - 8) + 37 - 2 + 3.
    assert_eq!(d.refresh.rect, PixelRect { left: 133, top: 41, width: 2, height: 2 });
    assert_eq!(d.refresh.waveform, Waveform::Fast);
    assert_eq!(d.ink, Ink::Black);
    // 'h' is 104: below the threshold; 255 and 200 are above it.
    assert_eq!(d.pixels, vec![Pixel { x: 134, y: 41 }, Pixel { x: 134, y: 42 }]);
    let d = t.render(a, &[25, 0, 129, -72]).expect("noise has one value per position");
    assert_eq!(
        d.pixels,
        vec![Pixel { x: 133, y: 41 }, Pixel { x: 134, y: 41 }, Pixel { x: 133, y: 42 }]
    );
}

#[test]
fn render_needs_one_noise_value_per_position() {
    let mut t = terminal();
    let a = t.print('h');
    assert!(t.render(a, &[0, 0, 0]).is_none());
    assert!(t.render(a, &[]).is_none());
}

#[test]
fn render_clears_the_cell_of_a_clear_request() {
    let mut t = terminal();
    t.print('h');
    let a = t.backspace();
    let d = t.render(a, &[]).expect("a cell fits");
    assert_eq!(d.ink, Ink::White);
    assert_eq!(d.refresh.waveform, Waveform::Quality);
    assert_eq!(d.refresh.rect, PixelRect { left: 132, top: 11, width: 19, height: 37 });
    assert_eq!(d.pixels.len(), 19 * 37);
    assert_eq!(d.pixels[0], Pixel { x: 132, y: 11 });
    assert_eq!(d.pixels[19], Pixel { x: 132, y: 12 });
    assert_eq!(d.pixels[19 * 37 - 1], Pixel { x: 132 + 18, y: 11 + 36 });
}

#[test]
fn render_gives_nothing_for_the_other_requests() {
    let t = terminal();
    assert!(t.render(Action::Nothing, &[]).is_none());
    assert!(t.render(Action::Unsupported { byte: 7 }, &[]).is_none());
    assert!(t.render(Action::Unprintable { c: '\u{e9}' }, &[]).is_none());
    assert!(t.render(Action::Draw { c: '\u{e9}', x: 0, y: 0 }, &[0, 0, 0, 0]).is_none());
}
