use vstd::prelude::*;

verus! {

/// A decoded image: width, height, and a tightly packed RGBA8 byte buffer
/// (four bytes per pixel, rows in order, no padding).
pub struct Raster {
    pub width: u32,
    pub height: u32,
    pub data: Vec<u8>,
}

/// Byte `c` (0..4) of the `p`-th pixel of a tightly packed RGBA8 buffer.
pub open spec fn flat_byte(data: Seq<u8>, p: int, c: int) -> u8 {
    data[4 * p + c]
}

/// Byte `c` (0..4) of the pixel at column `x`, row `y` of a tightly packed
/// RGBA8 buffer of the given width.
pub open spec fn byte_at(data: Seq<u8>, width: int, x: int, y: int, c: int) -> u8 {
    flat_byte(data, y * width + x, c)
}

/// An in-memory rotation of the raster on display.
pub enum Rotation {
    /// 90 degrees clockwise.
    Quarter,
    /// 180 degrees.
    Half,
    /// 90 degrees counterclockwise.
    ThreeQuarter,
}

/// The tightly packed buffer of a `w` by `h` RGBA8 image after a quarter turn
/// clockwise: the rotated image is `h` pixels wide, and its flat pixel `p`
/// (at column `p % h`, row `p / h`) is the source pixel at column `p / h`,
/// row `h - 1 - p % h`.
pub open spec fn rot90_data(src: Seq<u8>, w: int, h: int) -> Seq<u8> {
    Seq::new(
        (4 * (w * h)) as nat,
        |i: int|
            {
                let p = i / 4;
                let c = i % 4;
                byte_at(src, w, p / h, h - 1 - (p % h), c)
            },
    )
}

/// The buffer of a `w` by `h` RGBA8 image after a half turn: two quarter
/// turns clockwise.
pub open spec fn rot180_data(src: Seq<u8>, w: int, h: int) -> Seq<u8> {
    rot90_data(rot90_data(src, w, h), h, w)
}

/// The buffer of a `w` by `h` RGBA8 image after a quarter turn
/// counterclockwise: three quarter turns clockwise.
pub open spec fn rot270_data(src: Seq<u8>, w: int, h: int) -> Seq<u8> {
    rot90_data(rot180_data(src, w, h), w, h)
}

/// Two rasters hold the same image: same size, same bytes.
pub open spec fn raster_like(a: Raster, b: Raster) -> bool {
    a.width == b.width && a.height == b.height && a.data@ == b.data@
}

/// A pixel position is inside a `width` by `height` grid and `c` picks one of
/// its four channel bytes.
pub open spec fn in_grid(width: int, height: int, x: int, y: int, c: int) -> bool {
    0 <= x < width && 0 <= y < height && 0 <= c < 4
}

proof fn lemma_grid_offset_bound(x: int, y: int, w: int, h: int)
    requires
        0 <= x < w,
        0 <= y < h,
    ensures
        0 <= y * w + x < w * h,
{
    assert(y * w + x < w * h) by (nonlinear_arith)
        requires
            0 <= x < w,
            0 <= y < h,
    ;
    assert(0 <= y * w) by (nonlinear_arith)
        requires
            0 <= y,
            0 < w,
    ;
}

impl Raster {
    /// The buffer holds exactly four bytes for every pixel.
    pub open spec fn wf(&self) -> bool {
        self.data@.len() == 4 * (self.width as int) * (self.height as int)
    }

    pub open spec fn spec_byte(&self, x: int, y: int, c: int) -> u8 {
        byte_at(self.data@, self.width as int, x, y, c)
    }

    /// A raster of the given size with every pixel set to (r, g, b, a).
    pub fn new_filled(width: u32, height: u32, r: u8, g: u8, b: u8, a: u8) -> (out: Raster)
        requires
            4 * (width as int) * (height as int) <= usize::MAX,
        ensures
            out.wf(),
            out.width == width,
            out.height == height,
            forall|x: int, y: int|
                0 <= x < width && 0 <= y < height ==> out.spec_byte(x, y, 0) == r
                    && out.spec_byte(x, y, 1) == g && out.spec_byte(x, y, 2) == b && out.spec_byte(
                    x,
                    y,
                    3,
                ) == a,
    {
        proof {
            assert((width as int) * (height as int) <= usize::MAX && 4 * ((width as int) * (
            height as int)) <= usize::MAX) by (nonlinear_arith)
                requires
                    4 * (width as int) * (height as int) <= usize::MAX,
            ;
        }
        let npx: usize = (width as usize) * (height as usize);
        let mut data: Vec<u8> = Vec::new();
        let mut px: usize = 0;
        while px < npx
            invariant
                npx == (width as int) * (height as int),
                4 * npx <= usize::MAX,
                px <= npx,
                data@.len() == 4 * px,
                forall|p: int| 0 <= p < px ==> #[trigger] flat_byte(data@, p, 0) == r,
                forall|p: int| 0 <= p < px ==> #[trigger] flat_byte(data@, p, 1) == g,
                forall|p: int| 0 <= p < px ==> #[trigger] flat_byte(data@, p, 2) == b,
                forall|p: int| 0 <= p < px ==> #[trigger] flat_byte(data@, p, 3) == a,
            decreases npx - px,
        {
            let ghost data0 = data@;
            data.push(r);
            data.push(g);
            data.push(b);
            data.push(a);
            proof {
                assert forall|p: int, c: int|
                    0 <= p < px + 1 && 0 <= c < 4 implies #[trigger] flat_byte(data@, p, c) == (
                if c == 0 {
                    r
                } else if c == 1 {
                    g
                } else if c == 2 {
                    b
                } else {
                    a
                }) by {
                    if p < px {
                        assert(flat_byte(data0, p, 0) == r);
                        assert(flat_byte(data0, p, 1) == g);
                        assert(flat_byte(data0, p, 2) == b);
                        assert(flat_byte(data0, p, 3) == a);
                        assert(data@[4 * p + c] == data0[4 * p + c]);
                    }
                }
            }
            px = px + 1;
        }
        let out = Raster { width, height, data };
        proof {
            assert(out.data@.len() == 4 * (width as int) * (height as int)) by (nonlinear_arith)
                requires
                    out.data@.len() == 4 * ((width as int) * (height as int)),
            ;
            assert forall|x: int, y: int| 0 <= x < width && 0 <= y < height implies out.spec_byte(
                x,
                y,
                0,
            ) == r && out.spec_byte(x, y, 1) == g && out.spec_byte(x, y, 2) == b && out.spec_byte(
                x,
                y,
                3,
            ) == a by {
                lemma_grid_offset_bound(x, y, width as int, height as int);
                let p = y * (width as int) + x;
                assert(flat_byte(out.data@, p, 0) == r);
                assert(flat_byte(out.data@, p, 1) == g);
                assert(flat_byte(out.data@, p, 2) == b);
                assert(flat_byte(out.data@, p, 3) == a);
            }
        }
        out
    }

    /// The 1-by-1 stand-in raster used whenever a decode fails: a single
    /// fully transparent pixel.
    pub fn placeholder() -> (out: Raster)
        ensures
            out.wf(),
            out.width == 1,
            out.height == 1,
    {
        Raster::new_filled(1, 1, 0, 0, 0, 0)
    }

    /// The source byte that a quarter turn clockwise moves to flat pixel `p`
    /// of the rotated raster (whose row width is the source height).
    pub open spec fn rot90_src(&self, p: int, c: int) -> u8 {
        let ow = self.height as int;
        self.spec_byte(p / ow, self.height - 1 - (p % ow), c)
    }

    /// Dimensions after rotating a `w` by `h` raster: a half turn keeps them,
    /// a quarter turn either way swaps them.
    pub open spec fn rotated_dims(w: int, h: int, rot: Rotation) -> (int, int) {
        match rot {
            Rotation::Half => (w, h),
            _ => (h, w),
        }
    }

    /// The buffer after rotating a tightly packed `w` by `h` RGBA8 buffer by
    /// the given turn.
    pub open spec fn rotated_data(src: Seq<u8>, w: int, h: int, rot: Rotation) -> Seq<u8> {
        match rot {
            Rotation::Quarter => rot90_data(src, w, h),
            Rotation::Half => rot180_data(src, w, h),
            Rotation::ThreeQuarter => rot270_data(src, w, h),
        }
    }

    /// Rotates the raster by the given turn, as `rotated_data` describes.
    pub fn rotate(&self, rot: Rotation) -> (out: Raster)
        requires
            self.wf(),
        ensures
            out.wf(),
            out.width as int == Self::rotated_dims(self.width as int, self.height as int, rot).0,
            out.height as int == Self::rotated_dims(self.width as int, self.height as int, rot).1,
            out.data@ == Self::rotated_data(self.data@, self.width as int, self.height as int, rot),
    {
        match rot {
            Rotation::Quarter => self.rotate90(),
            Rotation::Half => self.rotate180(),
            Rotation::ThreeQuarter => self.rotate270(),
        }
    }

    /// Rotates the raster a quarter turn clockwise. The pixel at column `x`,
    /// row `y` of the result is the source pixel at column `y`, row
    /// `height - 1 - x`.
    pub fn rotate90(&self) -> (out: Raster)
        requires
            self.wf(),
        ensures
            out.wf(),
            out.width == self.height,
            out.height == self.width,
            forall|x: int, y: int, c: int|
                in_grid(out.width as int, out.height as int, x, y, c) ==> #[trigger] out.spec_byte(
                    x,
                    y,
                    c,
                ) == self.spec_byte(y, self.height - 1 - x, c),
            out.data@ == rot90_data(self.data@, self.width as int, self.height as int),
    {
        let w = self.width;
        let h = self.height;
        let ow = h;
        let oh = w;
        proof {
            assert(self.data@.len() == 4 * ((w as int) * (h as int)) && (w as int) * (h as int) == (
            oh as int) * (ow as int)) by (nonlinear_arith)
                requires
                    self.data@.len() == 4 * (w as int) * (h as int),
                    ow == h,
                    oh == w,
            ;
        }
        let ghost n = (w as int) * (h as int);
        let dlen: usize = self.data.len();
        let mut data: Vec<u8> = Vec::new();
        let mut oy: u32 = 0;
        while oy < oh
            invariant
                self.wf(),
                w == self.width,
                h == self.height,
                ow == h,
                oh == w,
                n == (w as int) * (h as int),
                self.data@.len() == 4 * n,
                4 * n <= usize::MAX,
                oy <= oh,
                data@.len() == 4 * ((oy as int) * (ow as int)),
                data@.len() <= 4 * n,
                forall|p: int, c: int|
                    0 <= p && 4 * p < data@.len() && 0 <= c < 4 ==> #[trigger] flat_byte(
                        data@,
                        p,
                        c,
                    ) == self.rot90_src(p, c),
            decreases oh - oy,
        {
            let mut ox: u32 = 0;
            proof {
                assert((oy as int) * (ow as int) + (ow as int) == ((oy as int) + 1) * (ow as int)
                    <= n) by (nonlinear_arith)
                    requires
                        oy < oh,
                        n == (oh as int) * (ow as int),
                ;
            }
            while ox < ow
                invariant
                    self.wf(),
                    w == self.width,
                    h == self.height,
                    ow == h,
                    oh == w,
                    n == (w as int) * (h as int),
                    self.data@.len() == 4 * n,
                    4 * n <= usize::MAX,
                    oy < oh,
                    ox <= ow,
                    (oy as int) * (ow as int) + (ow as int) <= n,
                    data@.len() == 4 * ((oy as int) * (ow as int) + (ox as int)),
                    forall|p: int, c: int|
                        0 <= p && 4 * p < data@.len() && 0 <= c < 4 ==> #[trigger] flat_byte(
                            data@,
                            p,
                            c,
                        ) == self.rot90_src(p, c),
                decreases ow - ox,
            {
                let sx = oy;
                let sy = h - 1 - ox;
                proof {
                    lemma_grid_offset_bound(sx as int, sy as int, w as int, h as int);
                }
                let base: usize = 4 * ((sy as usize) * (w as usize) + (sx as usize));
                let ghost data0 = data@;
                let ghost p = (oy as int) * (ow as int) + (ox as int);
                data.push(self.data[base]);
                data.push(self.data[base + 1]);
                data.push(self.data[base + 2]);
                data.push(self.data[base + 3]);
                proof {
                    vstd::arithmetic::div_mod::lemma_fundamental_div_mod_converse(
                        p,
                        ow as int,
                        oy as int,
                        ox as int,
                    );
                    assert forall|q: int, c: int|
                        0 <= q && 4 * q < data@.len() && 0 <= c < 4 implies #[trigger] flat_byte(
                        data@,
                        q,
                        c,
                    ) == self.rot90_src(q, c) by {
                        if q < p {
                            assert(flat_byte(data0, q, c) == self.rot90_src(q, c));
                            assert(data@[4 * q + c] == data0[4 * q + c]);
                        } else {
                            assert(q == p);
                            assert(flat_byte(data@, p, c) == self.data@[base + c]);
                        }
                    }
                }
                ox = ox + 1;
            }
            oy = oy + 1;
        }
        proof {
            assert(data@.len() == 4 * ((oh as int) * (ow as int)));
            assert(4 * ((oh as int) * (ow as int)) == 4 * (ow as int) * (oh as int))
                by (nonlinear_arith);
        }
        let out = Raster { width: ow, height: oh, data };
        proof {
            assert forall|x: int, y: int, c: int|
                in_grid(out.width as int, out.height as int, x, y, c) implies #[trigger] out.spec_byte(
                x,
                y,
                c,
            ) == self.spec_byte(y, self.height - 1 - x, c) by {
                lemma_grid_offset_bound(x, y, ow as int, oh as int);
                let p = y * (ow as int) + x;
                vstd::arithmetic::div_mod::lemma_fundamental_div_mod_converse(p, ow as int, y, x);
                assert(flat_byte(out.data@, p, c) == self.rot90_src(p, c));
            }
            let rd = rot90_data(self.data@, w as int, h as int);
            assert forall|i: int| 0 <= i < out.data@.len() implies out.data@[i] == rd[i] by {
                let p = i / 4;
                let c = i % 4;
                vstd::arithmetic::div_mod::lemma_fundamental_div_mod(i, 4);
                vstd::arithmetic::div_mod::lemma_mod_bound(i, 4);
                assert(0 <= p && 4 * p < out.data@.len());
                assert(flat_byte(out.data@, p, c) == self.rot90_src(p, c));
            }
            assert(out.data@ =~= rd);
        }
        out
    }

    /// Rotates the raster a half turn: the pixel at column `x`, row `y` of
    /// the result is the source pixel at column `width - 1 - x`, row
    /// `height - 1 - y`.
    pub fn rotate180(&self) -> (out: Raster)
        requires
            self.wf(),
        ensures
            out.wf(),
            out.width == self.width,
            out.height == self.height,
            forall|x: int, y: int, c: int|
                in_grid(out.width as int, out.height as int, x, y, c) ==> #[trigger] out.spec_byte(
                    x,
                    y,
                    c,
                ) == self.spec_byte(self.width - 1 - x, self.height - 1 - y, c),
            out.data@ == rot180_data(self.data@, self.width as int, self.height as int),
    {
        let mid = self.rotate90();
        let out = mid.rotate90();
        proof {
            assert forall|x: int, y: int, c: int|
                in_grid(out.width as int, out.height as int, x, y, c) implies #[trigger] out.spec_byte(
                x,
                y,
                c,
            ) == self.spec_byte(self.width - 1 - x, self.height - 1 - y, c) by {
                assert(out.spec_byte(x, y, c) == mid.spec_byte(y, mid.height - 1 - x, c));
                assert(mid.spec_byte(y, self.width - 1 - x, c) == self.spec_byte(
                    self.width - 1 - x,
                    self.height - 1 - y,
                    c,
                ));
            }
        }
        out
    }

    /// Rotates the raster a quarter turn counterclockwise: the pixel at
    /// column `x`, row `y` of the result is the source pixel at column
    /// `width - 1 - y`, row `x`.
    pub fn rotate270(&self) -> (out: Raster)
        requires
            self.wf(),
        ensures
            out.wf(),
            out.width == self.height,
            out.height == self.width,
            forall|x: int, y: int, c: int|
                in_grid(out.width as int, out.height as int, x, y, c) ==> #[trigger] out.spec_byte(
                    x,
                    y,
                    c,
                ) == self.spec_byte(self.width - 1 - y, x, c),
            out.data@ == rot270_data(self.data@, self.width as int, self.height as int),
    {
        let mid = self.rotate180();
        let out = mid.rotate90();
        proof {
            assert forall|x: int, y: int, c: int|
                in_grid(out.width as int, out.height as int, x, y, c) implies #[trigger] out.spec_byte(
                x,
                y,
                c,
            ) == self.spec_byte(self.width - 1 - y, x, c) by {
                assert(out.spec_byte(x, y, c) == mid.spec_byte(y, mid.height - 1 - x, c));
                assert(mid.spec_byte(y, self.height - 1 - x, c) == self.spec_byte(
                    self.width - 1 - y,
                    self.height - 1 - (self.height - 1 - x),
                    c,
                ));
            }
        }
        out
    }
}

/// Expands a single-channel mask into an RGBA overlay of the same size:
/// opaque red where the mask is nonzero, fully transparent elsewhere.
pub fn mask_overlay(mask: &Vec<u8>, width: u32, height: u32) -> (out: Raster)
    requires
        mask@.len() == (width as int) * (height as int),
        4 * (width as int) * (height as int) <= usize::MAX,
    ensures
        out.wf(),
        out.width == width,
        out.height == height,
        forall|p: int, c: int|
            0 <= p < mask@.len() && 0 <= c < 4 ==> #[trigger] flat_byte(out.data@, p, c) == (if mask@[p]
                > 0 {
                overlay_red(c)
            } else {
                0
            }),
{
    proof {
        assert(4 * ((width as int) * (height as int)) <= usize::MAX) by (nonlinear_arith)
            requires
                4 * (width as int) * (height as int) <= usize::MAX,
        ;
    }
    let npx = mask.len();
    let mut data: Vec<u8> = Vec::new();
    let mut px: usize = 0;
    while px < npx
        invariant
            npx == mask@.len(),
            4 * npx <= usize::MAX,
            px <= npx,
            data@.len() == 4 * px,
            forall|p: int, c: int|
                0 <= p < px && 0 <= c < 4 ==> #[trigger] flat_byte(data@, p, c) == (if mask@[p] > 0 {
                    overlay_red(c)
                } else {
                    0
                }),
        decreases npx - px,
    {
        let ghost data0 = data@;
        if mask[px] > 0 {
            data.push(255);
            data.push(0);
            data.push(0);
            data.push(255);
        } else {
            data.push(0);
            data.push(0);
            data.push(0);
            data.push(0);
        }
        proof {
            assert forall|p: int, c: int| 0 <= p < px + 1 && 0 <= c < 4 implies #[trigger] flat_byte(
                data@,
                p,
                c,
            ) == (if mask@[p] > 0 {
                overlay_red(c)
            } else {
                0
            }) by {
                if p < px {
                    assert(flat_byte(data0, p, c) == (if mask@[p] > 0 {
                        overlay_red(c)
                    } else {
                        0
                    }));
                    assert(data@[4 * p + c] == data0[4 * p + c]);
                }
            }
        }
        px = px + 1;
    }
    proof {
        assert(4 * ((width as int) * (height as int)) == 4 * (width as int) * (height as int))
            by (nonlinear_arith);
    }
    Raster { width, height, data }
}

/// The RGBA bytes of the opaque red that marks selected mask pixels.
pub open spec fn overlay_red(c: int) -> u8 {
    if c == 0 || c == 3 {
        255
    } else {
        0
    }
}

/// The largest size with the aspect ratio of `w` by `h` that fits inside the
/// `bw` by `bh` box, never scaled up and never collapsed below one pixel: an
/// image already inside the box keeps its size, otherwise the binding side is
/// set to the box and the other side is scaled in proportion.
pub open spec fn spec_fit_within(w: int, h: int, bw: int, bh: int) -> (int, int) {
    if w <= bw && h <= bh {
        (w, h)
    } else if w * bh >= h * bw {
        (bw, if h * bw / w < 1 {
            1
        } else {
            h * bw / w
        })
    } else {
        (if w * bh / h < 1 {
            1
        } else {
            w * bh / h
        }, bh)
    }
}

/// Computes the aspect-ratio-preserving fit of a `w` by `h` image within a
/// `bw` by `bh` box (never scaling up).
pub fn fit_within(w: u32, h: u32, bw: u32, bh: u32) -> (r: (u32, u32))
    requires
        w > 0,
        h > 0,
        bw > 0,
        bh > 0,
    ensures
        (r.0 as int, r.1 as int) == spec_fit_within(w as int, h as int, bw as int, bh as int),
        w <= bw && h <= bh ==> r.0 == w && r.1 == h,
        !(w <= bw && h <= bh) ==> r.0 <= bw && r.1 <= bh,
        r.0 >= 1 && r.1 >= 1,
{
    if w <= bw && h <= bh {
        return (w, h);
    }
    proof {
        assert((w as int) * (bh as int) <= u64::MAX && (h as int) * (bw as int) <= u64::MAX)
            by (nonlinear_arith)
            requires
                w <= u32::MAX,
                h <= u32::MAX,
                bw <= u32::MAX,
                bh <= u32::MAX,
        ;
    }
    let wp: u64 = (w as u64) * (bh as u64);
    let hp: u64 = (h as u64) * (bw as u64);
    if wp >= hp {
        let nh64: u64 = hp / (w as u64);
        proof {
            assert(hp / (w as u64) <= bh) by (nonlinear_arith)
                requires
                    wp == (w as int) * (bh as int),
                    hp == (h as int) * (bw as int),
                    wp >= hp,
                    w > 0,
            ;
        }
        let nh: u32 = if nh64 < 1 {
            1
        } else {
            nh64 as u32
        };
        (bw, nh)
    } else {
        let nw64: u64 = wp / (h as u64);
        proof {
            assert(wp / (h as u64) <= bw) by (nonlinear_arith)
                requires
                    wp == (w as int) * (bh as int),
                    hp == (h as int) * (bw as int),
                    wp <= hp,
                    h > 0,
            ;
        }
        let nw: u32 = if nw64 < 1 {
            1
        } else {
            nw64 as u32
        };
        (nw, bh)
    }
}

impl Clone for Raster {
    fn clone(&self) -> (out: Self)
        ensures
            out.width == self.width,
            out.height == self.height,
            out.data@ == self.data@,
    {
        let mut data: Vec<u8> = Vec::new();
        let mut i: usize = 0;
        let n = self.data.len();
        while i < n
            invariant
                n == self.data@.len(),
                i <= n,
                data@ == self.data@.subrange(0, i as int),
            decreases n - i,
        {
            data.push(self.data[i]);
            proof {
                assert(data@ == self.data@.subrange(0, i + 1));
            }
            i = i + 1;
        }
        proof {
            assert(data@ == self.data@);
        }
        Raster { width: self.width, height: self.height, data }
    }
}

} // verus!
