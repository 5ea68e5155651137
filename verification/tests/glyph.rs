use eink_term::glyph::{Glyph, GlyphCache, GlyphMetrics, FIRST_CHAR, GLYPH_COUNT, LAST_CHAR};

fn metrics(width: u32, height: u32) -> GlyphMetrics {
    GlyphMetrics { xmin: 1, ymin: -3, width, height, advance: 19 }
}

fn glyph_for(c: char) -> Option<Glyph> {
    let code = c as u32;
    Glyph::new(metrics(2, 3), vec![code as u8, 0, 255, 128, 129, 7])
}

#[test]
fn glyph_takes_a_bitmap_of_one_value_per_pixel() {
    let g = Glyph::new(metrics(3, 2), vec![1, 2, 3, 4, 5, 6]).expect("six values for 3 by 2");
    assert_eq!(g.metrics(), metrics(3, 2));
    assert_eq!(g.bitmap(), &vec![1u8, 2, 3, 4, 5, 6]);
}

#[test]
fn glyph_refuses_a_bitmap_of_another_length() {
    assert!(Glyph::new(metrics(3, 2), vec![1, 2, 3, 4, 5]).is_none());
    assert!(Glyph::new(metrics(3, 2), vec![1, 2, 3, 4, 5, 6, 7]).is_none());
    assert!(Glyph::new(metrics(0, 5), vec![1]).is_none());
}

#[test]
fn glyph_of_no_area_has_an_empty_bitmap() {
    let g = Glyph::new(metrics(0, 7), Vec::new()).expect("no pixel, no value");
    assert!(g.bitmap().is_empty());
    let g = Glyph::new(metrics(7, 0), Vec::new()).expect("no pixel, no value");
    assert_eq!(g.metrics().width, 7);
}

#[test]
fn supported_range_has_ninety_six_characters() {
    assert_eq!(FIRST_CHAR, 32);
    assert_eq!(LAST_CHAR, 127);
    assert_eq!(GLYPH_COUNT, 96);
}

#[test]
fn build_rasterizes_every_supported_character_once_in_order() {
    let asked = std::cell::RefCell::new(Vec::new());
    let cache = GlyphCache::build(|c| {
        asked.borrow_mut().push(c);
        glyph_for(c)
    })
    .expect("every character has a glyph");
    let expected: Vec<char> = (32u8..=127).map(|b| b as char).collect();
    assert_eq!(*asked.borrow(), expected);
    for b in 32u8..=127 {
        let g = cache.lookup(b as char).expect("in range");
        assert_eq!(g.bitmap()[0], b);
        assert_eq!(g.metrics(), metrics(2, 3));
    }
}

#[test]
fn build_fails_at_the_first_character_without_a_glyph() {
    let asked = std::cell::RefCell::new(Vec::new());
    let cache = GlyphCache::build(|c| {
        asked.borrow_mut().push(c);
        if c == 'A' {
            None
        } else {
            glyph_for(c)
        }
    });
    assert!(cache.is_none());
    assert_eq!(asked.borrow().last(), Some(&'A'));
    assert_eq!(asked.borrow().len(), 34);
}

#[test]
fn lookup_gives_nothing_outside_the_supported_range() {
    let cache = GlyphCache::build(glyph_for).expect("every character has a glyph");
    assert!(cache.lookup('\u{1f}').is_none());
    assert!(cache.lookup('\u{80}').is_none());
    assert!(cache.lookup('\u{e9}').is_none());
    assert!(cache.lookup('\n').is_none());
    assert!(cache.lookup(' ').is_some());
    assert!(cache.lookup('\u{7f}').is_some());
}
