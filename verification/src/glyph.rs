//! Rasterized glyphs and the cache that holds one per supported character.

use vstd::prelude::*;

verus! {

/// Code of the first character that has a glyph.
pub const FIRST_CHAR: u8 = 32;

/// Code of the last character that has a glyph.
pub const LAST_CHAR: u8 = 127;

/// Number of characters that have a glyph.
pub const GLYPH_COUNT: usize = 96;

/// Whether `c` lies in the range of characters that have a glyph.
pub open spec fn supported(c: char) -> bool {
    FIRST_CHAR as int <= c as int <= LAST_CHAR as int
}

/// The character whose glyph stands at index `k` of the cache.
pub open spec fn char_at(k: int) -> char {
    ((FIRST_CHAR as int + k) as u8) as char
}

/// Placement and size of a glyph's bitmap, in whole pixels.
#[derive(Clone, Copy, Debug, PartialEq, Eq)]
pub struct GlyphMetrics {
    /// Offset of the bitmap's left edge from the pen position.
    pub xmin: i32,
    /// Offset of the bitmap's bottom edge from the baseline.
    pub ymin: i32,
    /// Width of the bitmap.
    pub width: u32,
    /// Height of the bitmap.
    pub height: u32,
    /// Distance from one pen position to the next.
    pub advance: u32,
}

/// What a glyph is: its metrics and one coverage value per pixel, row by row.
pub struct GlyphView {
    pub metrics: GlyphMetrics,
    pub bitmap: Seq<u8>,
}

impl GlyphView {
    /// Number of pixels of the bitmap.
    pub open spec fn area(self) -> nat {
        self.metrics.width as nat * self.metrics.height as nat
    }

    /// The bitmap has exactly one value per pixel.
    pub open spec fn wf(self) -> bool {
        self.bitmap.len() == self.area()
    }
}

/// A rasterized character. Its bitmap always has `width * height` values.
pub struct Glyph {
    metrics: GlyphMetrics,
    bitmap: Vec<u8>,
}

impl View for Glyph {
    type V = GlyphView;

    closed spec fn view(&self) -> GlyphView {
        GlyphView { metrics: self.metrics, bitmap: self.bitmap@ }
    }
}

impl Glyph {
    #[verifier::type_invariant]
    spec fn inv(self) -> bool {
        self@.wf()
    }

    /// Pairs metrics with a bitmap, if the bitmap has one value per pixel.
    pub fn new(metrics: GlyphMetrics, bitmap: Vec<u8>) -> (r: Option<Glyph>)
        ensures
            r is Some <==> bitmap@.len() == metrics.width as nat * metrics.height as nat,
            r matches Some(g) ==> g@ == (GlyphView { metrics, bitmap: bitmap@ }) && g@.wf(),
    {
        let width: u64 = metrics.width as u64;
        let height: u64 = metrics.height as u64;
        assert(width * height <= 0xffff_ffff * 0xffff_ffff) by (nonlinear_arith)
            requires
                width <= 0xffff_ffff,
                height <= 0xffff_ffff,
        ;
        let area: u64 = width * height;
        if bitmap.len() as u64 == area {
            Some(Glyph { metrics, bitmap })
        } else {
            None
        }
    }

    /// The glyph's metrics.
    pub fn metrics(&self) -> (r: GlyphMetrics)
        ensures
            r == self@.metrics,
            self@.wf(),
    {
        proof {
            use_type_invariant(self);
        }
        self.metrics
    }

    /// The glyph's coverage values, row by row.
    pub fn bitmap(&self) -> (r: &Vec<u8>)
        ensures
            r@ == self@.bitmap,
            self@.wf(),
    {
        proof {
            use_type_invariant(self);
        }
        &self.bitmap
    }
}

/// One glyph for every supported character, in the order of their codes.
pub struct GlyphCache {
    glyphs: Vec<Glyph>,
}

impl View for GlyphCache {
    type V = Seq<GlyphView>;

    closed spec fn view(&self) -> Seq<GlyphView> {
        Seq::new(self.glyphs@.len(), |k: int| self.glyphs@[k]@)
    }
}

/// A cache is complete: it has a glyph for each supported character, and each
/// glyph's bitmap has one value per pixel.
pub open spec fn complete(glyphs: Seq<GlyphView>) -> bool {
    &&& glyphs.len() == GLYPH_COUNT
    &&& forall|k: int| 0 <= k < glyphs.len() ==> (#[trigger] glyphs[k]).wf()
}

/// The glyph that a complete cache holds for the supported character `c`.
pub open spec fn glyph_of(glyphs: Seq<GlyphView>, c: char) -> GlyphView {
    glyphs[c as int - FIRST_CHAR as int]
}

impl GlyphCache {
    #[verifier::type_invariant]
    spec fn inv(self) -> bool {
        complete(self@)
    }

    /// The glyph that stands at index `k` of the cache.
    pub closed spec fn entry(&self, k: int) -> Glyph {
        self.glyphs@[k]
    }

    /// Builds the cache by rasterizing every supported character once, from
    /// the first to the last. Stops and returns `None` at the first character
    /// for which `rasterize` gives no glyph.
    pub fn build<F: Fn(char) -> Option<Glyph>>(rasterize: F) -> (r: Option<GlyphCache>)
        requires
            forall|c: char| supported(c) ==> #[trigger] rasterize.requires((c,)),
        ensures
            r matches Some(cache) ==> {
                &&& complete(cache@)
                &&& forall|k: int|
                    0 <= k < GLYPH_COUNT ==> (#[trigger] cache.entry(k))@ == cache@[k]
                        && rasterize.ensures((char_at(k),), Some(cache.entry(k)))
            },
            r is None ==> exists|c: char| supported(c) && #[trigger] rasterize.ensures((c,), None),
    {
        let mut glyphs: Vec<Glyph> = Vec::new();
        let mut code: u8 = FIRST_CHAR;
        while code <= LAST_CHAR
            invariant
                FIRST_CHAR <= code <= LAST_CHAR + 1,
                glyphs@.len() == code - FIRST_CHAR,
                forall|c: char| supported(c) ==> #[trigger] rasterize.requires((c,)),
                forall|k: int|
                    0 <= k < glyphs@.len() ==> (#[trigger] glyphs@[k])@.wf() && rasterize.ensures(
                        (char_at(k),),
                        Some(glyphs@[k]),
                    ),
            decreases LAST_CHAR + 1 - code,
        {
            let c: char = code as char;
            assert(supported(c));
            assert(c == char_at(glyphs@.len() as int));
            match rasterize(c) {
                Some(glyph) => {
                    proof {
                        use_type_invariant(&glyph);
                    }
                    glyphs.push(glyph);
                },
                None => {
                    return None;
                },
            }
            code = code + 1;
        }
        let ghost views: Seq<GlyphView> = Seq::new(glyphs@.len(), |i: int| glyphs@[i]@);
        assert forall|k: int| 0 <= k < views.len() implies (#[trigger] views[k]).wf() by {
            assert(glyphs@[k]@.wf());
        }
        let cache = GlyphCache { glyphs };
        assert(cache@ == views);
        Some(cache)
    }

    /// The glyph of `c`, or `None` where `c` is not a supported character.
    pub fn lookup(&self, c: char) -> (r: Option<&Glyph>)
        ensures
            complete(self@),
            r is Some <==> supported(c),
            r matches Some(g) ==> *g == self.entry(c as int - FIRST_CHAR as int) && g@ == glyph_of(
                self@,
                c,
            ) && g@.wf(),
    {
        proof {
            use_type_invariant(self);
        }
        let code: u32 = c as u32;
        if code < FIRST_CHAR as u32 || code > LAST_CHAR as u32 {
            return None;
        }
        let index: usize = (code - FIRST_CHAR as u32) as usize;
        Some(&self.glyphs[index])
    }
}

} // verus!
