//! The pixel canvas and its plain-text serialization.
//!
//! A canvas is a grid of colors. `to_ppm` renders it as bytes: the
//! fixed header, then each row's channel values — every channel scaled
//! by 255, rounded half away from zero, and clamped to 0..=255 — as
//! decimal numbers separated so that lines break around seventy
//! columns, one trailing newline per row.

use vstd::prelude::*;

verus! {

use crate::color::{Color, ColorV, color_fits};

#[derive(Clone, Debug, PartialEq)]
pub struct Canvas {
    width: usize,
    height: usize,
    c: Vec<Vec<Color>>,
}

impl View for Canvas {
    type V = Seq<Seq<ColorV>>;

    closed spec fn view(&self) -> Seq<Seq<ColorV>> {
        self.c@.map_values(|row: Vec<Color>| row@.map_values(|p: Color| p@))
    }
}

/// The decimal digits of `n`, most significant first.
pub open spec fn dec_v(n: nat) -> Seq<u8>
    decreases n,
{
    if n < 10 {
        seq![(48 + n) as u8]
    } else {
        dec_v(n / 10).push((48 + n % 10) as u8)
    }
}

/// A channel as a pixel byte: scaled by 255, rounded half away from
/// zero, clamped to 0..=255.
pub open spec fn channel_byte(v: int) -> nat {
    let scaled = v * 255;
    let rounded = if scaled >= 0 {
        (scaled + 500_000) / 1_000_000
    } else {
        -((-scaled + 500_000) / 1_000_000)
    };
    if rounded < 0 {
        0
    } else if rounded > 255 {
        255
    } else {
        rounded as nat
    }
}

/// The channel strings of one row: three decimal numbers per pixel.
pub open spec fn row_strs(row: Seq<ColorV>) -> Seq<Seq<u8>> {
    Seq::new(
        3 * row.len(),
        |i: int|
            {
                let p = row[i / 3];
                if i % 3 == 0 {
                    dec_v(channel_byte(p.r))
                } else if i % 3 == 1 {
                    dec_v(channel_byte(p.g))
                } else {
                    dec_v(channel_byte(p.b))
                }
            },
    )
}

/// One joining step: a space when the current line's residue modulo
/// seventy would not shrink, else a line break.
pub open spec fn join_step(acc: Seq<u8>, s: Seq<u8>) -> Seq<u8> {
    let l = acc.len();
    if l % 70 <= (l + 1 + s.len()) % 70 {
        acc + seq![32u8] + s
    } else {
        acc + seq![10u8] + s
    }
}

/// The first `k` strings joined left to right; the first stands alone.
pub open spec fn joined(strs: Seq<Seq<u8>>, k: int) -> Seq<u8>
    decreases k,
{
    if k <= 0 {
        Seq::empty()
    } else if k == 1 {
        strs[0]
    } else {
        join_step(joined(strs, k - 1), strs[k - 1])
    }
}

/// One serialized row: its joined channel strings and a newline.
pub open spec fn ppm_row(row: Seq<ColorV>) -> Seq<u8> {
    joined(row_strs(row), 3 * row.len() as int) + seq![10u8]
}

/// The first `k` rows, serialized in order.
pub open spec fn ppm_rows(g: Seq<Seq<ColorV>>, k: int) -> Seq<u8>
    decreases k,
{
    if k <= 0 {
        Seq::empty()
    } else {
        ppm_rows(g, k - 1) + ppm_row(g[k - 1])
    }
}

/// The header: the magic number, the dimensions, the maximum value.
pub open spec fn ppm_header(w: nat, h: nat) -> Seq<u8> {
    seq![80u8, 51u8, 10u8] + dec_v(w) + seq![32u8] + dec_v(h) + seq![10u8] + seq![
        50u8,
        53u8,
        53u8,
        10u8,
    ]
}

/// The whole serialized canvas.
pub open spec fn ppm_v(w: nat, h: nat, g: Seq<Seq<ColorV>>) -> Seq<u8> {
    ppm_header(w, h) + ppm_rows(g, g.len() as int)
}

/// The decimal digits of `n`.
fn dec_bytes(n: usize) -> (r: Vec<u8>)
    ensures
        r@ == dec_v(n as nat),
    decreases n,
{
    if n < 10 {
        let mut v: Vec<u8> = Vec::new();
        v.push(48 + (n as u8));
        proof {
            assert(v@ =~= dec_v(n as nat));
        }
        v
    } else {
        let mut v = dec_bytes(n / 10);
        v.push(48 + ((n % 10) as u8));
        proof {
            assert(v@ =~= dec_v(n as nat));
        }
        v
    }
}

/// The byte of one channel.
fn channel_byte_exec(v: &Color, which: u8) -> (r: u8)
    requires
        color_fits(v@),
        which < 3,
    ensures
        which == 0 ==> r as nat == channel_byte(v@.r),
        which == 1 ==> r as nat == channel_byte(v@.g),
        which == 2 ==> r as nat == channel_byte(v@.b),
{
    let m: i128 = if which == 0 {
        v.r.micros()
    } else if which == 1 {
        v.g.micros()
    } else {
        v.b.micros()
    };
    if m < 0 {
        0
    } else {
        let scaled: u128 = (m as u128) * 255;
        let rounded: u128 = (scaled + 500_000) / 1_000_000;
        if rounded > 255 {
            255
        } else {
            rounded as u8
        }
    }
}

impl Canvas {
    /// The canvas width, as the serializer writes it.
    pub closed spec fn spec_width(&self) -> int {
        self.width as int
    }

    /// The canvas height, as the serializer writes it.
    pub closed spec fn spec_height(&self) -> int {
        self.height as int
    }

    /// The grid matches the dimensions and every channel is in range.
    pub closed spec fn wf(&self) -> bool {
        &&& self.c@.len() == self.height
        &&& forall|i: int| 0 <= i < self.c@.len() ==> #[trigger] self.c@[i]@.len() == self.width
        &&& forall|i: int, j: int|
            0 <= i < self.c@.len() && 0 <= j < self.c@[i]@.len() ==> color_fits(
                #[trigger] self.c@[i]@[j]@,
            )
        &&& self.width <= 100_000_000
        &&& self.height <= 100_000_000
    }

    /// A `width` by `height` canvas of black pixels.
    pub fn new(width: usize, height: usize) -> (r: Canvas)
        requires
            width <= 100_000_000,
            height <= 100_000_000,
        ensures
            r.wf(),
            r.spec_width() == width,
            r.spec_height() == height,
            r@.len() == height,
            forall|i: int| 0 <= i < height ==> #[trigger] r@[i].len() == width,
            forall|i: int, j: int|
                0 <= i < height && 0 <= j < width ==> #[trigger] r@[i][j] == (ColorV {
                    r: 0,
                    g: 0,
                    b: 0,
                }),
    {
        let black = Color::new(
            crate::scalar::Scalar::zero(),
            crate::scalar::Scalar::zero(),
            crate::scalar::Scalar::zero(),
        );
        let mut rows: Vec<Vec<Color>> = Vec::new();
        let mut i: usize = 0;
        while i < height
            invariant
                black@ == (ColorV { r: 0, g: 0, b: 0 }),
                i <= height,
                rows@.len() == i,
                forall|a: int| 0 <= a < i ==> #[trigger] rows@[a]@.len() == width,
                forall|a: int, b: int|
                    0 <= a < i && 0 <= b < width ==> #[trigger] rows@[a]@[b]@ == (ColorV {
                        r: 0,
                        g: 0,
                        b: 0,
                    }),
            decreases height - i,
        {
            let mut row: Vec<Color> = Vec::new();
            let mut j: usize = 0;
            while j < width
                invariant
                    black@ == (ColorV { r: 0, g: 0, b: 0 }),
                    j <= width,
                    row@.len() == j,
                    forall|b: int|
                        0 <= b < j ==> #[trigger] row@[b]@ == (ColorV { r: 0, g: 0, b: 0 }),
                decreases width - j,
            {
                row.push(black);
                j = j + 1;
            }
            rows.push(row);
            i = i + 1;
        }
        Canvas { width, height, c: rows }
    }

    /// The width and the height.
    pub fn shape(&self) -> (r: (usize, usize))
        ensures
            r.0 == self.spec_width(),
            r.1 == self.spec_height(),
    {
        (self.width, self.height)
    }

    /// Writes the pixel at `(coord.0, coord.1)` — column, then row.
    pub fn set_pix(&mut self, coord: (usize, usize), pix: Color)
        requires
            old(self).wf(),
            coord.0 < old(self).spec_width(),
            coord.1 < old(self).spec_height(),
            color_fits(pix@),
        ensures
            final(self).wf(),
            final(self).spec_width() == old(self).spec_width(),
            final(self).spec_height() == old(self).spec_height(),
            final(self)@ == old(self)@.update(
                coord.1 as int,
                old(self)@[coord.1 as int].update(coord.0 as int, pix@),
            ),
    {
        let row = &mut self.c[coord.1];
        row[coord.0] = pix;
        proof {
            assert(self@ =~~= old(self)@.update(
                coord.1 as int,
                old(self)@[coord.1 as int].update(coord.0 as int, pix@),
            ));
        }
    }

    /// Reads the pixel at `(coord.0, coord.1)` — column, then row.
    pub fn get_pix(&self, coord: (usize, usize)) -> (r: Color)
        requires
            self.wf(),
            coord.0 < self.spec_width(),
            coord.1 < self.spec_height(),
        ensures
            r@ == self@[coord.1 as int][coord.0 as int],
    {
        self.c[coord.1][coord.0]
    }

    /// The canvas as plain-text pixel bytes.
    pub fn to_ppm(&self) -> (out: Vec<u8>)
        requires
            self.wf(),
        ensures
            out@ == ppm_v(self.spec_width() as nat, self.spec_height() as nat, self@),
    {
        let mut out: Vec<u8> = Vec::new();
        out.push(80);
        out.push(51);
        out.push(10);
        let mut wd = dec_bytes(self.width);
        out.append(&mut wd);
        out.push(32);
        let mut hd = dec_bytes(self.height);
        out.append(&mut hd);
        out.push(10);
        out.push(50);
        out.push(53);
        out.push(53);
        out.push(10);
        proof {
            assert(out@ =~= ppm_header(self.spec_width() as nat, self.spec_height() as nat));
        }
        let ghost header = out@;
        let mut y: usize = 0;
        while y < self.height
            invariant
                self.wf(),
                y <= self.c@.len(),
                out@ == header + ppm_rows(self@, y as int),
                header == ppm_header(self.spec_width() as nat, self.spec_height() as nat),
            decreases self.c@.len() - y,
        {
            let mut line: Vec<u8> = Vec::new();
            let mut x: usize = 0;
            let ghost row = self@[y as int];
            proof {
                assert(joined(row_strs(row), 0) =~= line@);
            }
            while x < self.width
                invariant
                    self.wf(),
                    y < self.c@.len(),
                    x <= self.spec_width(),
                    row == self@[y as int],
                    line@ == joined(row_strs(row), 3 * x),
                    line@.len() <= 12 * (3 * x),
                decreases self.spec_width() - x,
            {
                proof {
                    assert(self.c@[y as int]@[x as int]@ == row[x as int]);
                    lemma_row_strs_at(row, x as int);
                }
                let pix = &self.c[y][x];
                let b0 = dec_bytes(channel_byte_exec(pix, 0) as usize);
                let b1 = dec_bytes(channel_byte_exec(pix, 1) as usize);
                let b2 = dec_bytes(channel_byte_exec(pix, 2) as usize);
                proof {
                    lemma_dec_len_small(channel_byte(row[x as int].r));
                    lemma_dec_len_small(channel_byte(row[x as int].g));
                    lemma_dec_len_small(channel_byte(row[x as int].b));
                }
                line = append_str(line, b0, x == 0, Ghost(row_strs(row)), Ghost(3 * x as int));
                line = append_str(line, b1, false, Ghost(row_strs(row)), Ghost(3 * x as int + 1));
                line = append_str(line, b2, false, Ghost(row_strs(row)), Ghost(3 * x as int + 2));
                x = x + 1;
            }
            out.append(&mut line);
            out.push(10);
            proof {
                assert(ppm_rows(self@, y as int + 1) == ppm_rows(self@, y as int) + ppm_row(
                    self@[y as int],
                ));
                assert(out@ =~= header + ppm_rows(self@, y as int + 1));
            }
            y = y + 1;
        }
        proof {
            assert(out@ =~= ppm_v(self.spec_width() as nat, self.spec_height() as nat, self@));
        }
        out
    }
}

/// A channel number of at most three digits.
proof fn lemma_dec_len_small(n: nat)
    requires
        n <= 255,
    ensures
        1 <= dec_v(n).len() <= 3,
{
    if n >= 10 {
        let m = n / 10;
        vstd::arithmetic::div_mod::lemma_div_is_ordered(n as int, 255, 10);
        assert(m < 26);
        if m < 10 {
            assert(dec_v(m).len() == 1);
        } else {
            let m2 = m / 10;
            vstd::arithmetic::div_mod::lemma_div_is_ordered(m as int, 25, 10);
            assert(m2 < 10);
            assert(dec_v(m2).len() == 1);
            assert(dec_v(m).len() == 2);
        }
        assert(dec_v(n).len() == dec_v(m).len() + 1);
    }
}

/// The `i`-th channel string of a row.
proof fn lemma_row_strs_at(row: Seq<ColorV>, x: int)
    requires
        0 <= x < row.len(),
    ensures
        row_strs(row).len() == 3 * row.len(),
        row_strs(row)[3 * x] == dec_v(channel_byte(row[x].r)),
        row_strs(row)[3 * x + 1] == dec_v(channel_byte(row[x].g)),
        row_strs(row)[3 * x + 2] == dec_v(channel_byte(row[x].b)),
{
    assert((3 * x) / 3 == x && (3 * x) % 3 == 0) by (nonlinear_arith)
        requires
            x >= 0,
    ;
    assert((3 * x + 1) / 3 == x && (3 * x + 1) % 3 == 1) by (nonlinear_arith)
        requires
            x >= 0,
    ;
    assert((3 * x + 2) / 3 == x && (3 * x + 2) % 3 == 2) by (nonlinear_arith)
        requires
            x >= 0,
    ;
}

/// Joins one more channel string onto the line under the wrap rule;
/// the first string of a row stands alone.
fn append_str(
    line: Vec<u8>,
    s: Vec<u8>,
    first: bool,
    strs: Ghost<Seq<Seq<u8>>>,
    k: Ghost<int>,
) -> (r: Vec<u8>)
    requires
        0 <= k@ < strs@.len(),
        first == (k@ == 0),
        line@ == joined(strs@, k@),
        s@ == strs@[k@],
        s@.len() <= 3,
        line@.len() <= 12 * k@,
        k@ <= 300_000_002,
    ensures
        r@ == joined(strs@, k@ + 1),
        r@.len() <= 12 * (k@ + 1),
{
    if first {
        proof {
            assert(joined(strs@, 1) =~= strs@[0]);
        }
        s
    } else {
        let mut line = line;
        let l = line.len();
        let sep: u8 = if l % 70 <= (l + 1 + s.len()) % 70 {
            32
        } else {
            10
        };
        line.push(sep);
        let mut s2 = s;
        line.append(&mut s2);
        proof {
            assert(line@ =~= join_step(joined(strs@, k@), strs@[k@]));
        }
        line
    }
}

} // verus!
