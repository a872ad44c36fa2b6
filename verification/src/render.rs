//! What a plane hands to a display: one filled square for each cell that
//! changed in the last advance, and a picture of the grid as text.

use vstd::prelude::*;
use vstd::string::StringExecFns;
use embedded_graphics::pixelcolor::{Rgb565, Rgb888, RgbColor};
use crate::board::{Board, Rgb};
use crate::plane::Plane;

verus! {

/// A colour as a display of sixteen bits takes it: five bits of red, six of
/// green, five of blue.
#[derive(Clone, Copy, Debug, PartialEq, Eq, Structural)]
pub struct Pixel {
    pub r: u8,
    pub g: u8,
    pub b: u8,
}

/// A square of pixels to fill with one colour, given by its corners. Both
/// corners belong to the square.
#[derive(Clone, Copy, Debug, PartialEq, Eq, Structural)]
pub struct Patch {
    pub left: i32,
    pub top: i32,
    pub right: i32,
    pub bottom: i32,
    pub color: Pixel,
}

/// A channel of eight bits scaled to a channel whose largest value is
/// `most`, rounded to the nearest value.
pub open spec fn scaled_channel(value: u8, most: int) -> u8 {
    ((value * most + 127) / 255) as u8
}

/// A colour of three times eight bits as the display takes it.
pub open spec fn scaled(color: Rgb) -> Pixel {
    Pixel {
        r: scaled_channel(color.r, 31),
        g: scaled_channel(color.g, 63),
        b: scaled_channel(color.b, 31),
    }
}

/// The colour of a dead cell.
pub open spec fn black() -> Pixel {
    Pixel { r: 0, g: 0, b: 0 }
}

/// Calls `Rgb565::from(Rgb888)` of `embedded_graphics` and reads the three
/// channels of the result. The contract says what that conversion does to
/// each channel: it multiplies by the largest value of the narrow channel,
/// adds half of 255 and divides by 255.
#[verifier::external_body]
pub(crate) fn to_pixel(color: Rgb) -> (pixel: Pixel)
    ensures
        pixel == scaled(color),
{
    let narrow = Rgb565::from(Rgb888::new(color.r, color.g, color.b));
    Pixel { r: narrow.r(), g: narrow.g(), b: narrow.b() }
}

/// The pixel at which the squares of column or row `c` begin, with
/// `magnification` pixels to the side of a cell.
pub open spec fn near(c: int, magnification: int) -> int {
    c * magnification
}

/// The pixel at which the squares of column or row `c` end.
pub open spec fn far(c: int, magnification: int) -> int {
    c * magnification + (magnification - 1)
}

/// Whether the squares of column or row `c` lie at pixels that a display
/// can address.
pub open spec fn on_screen(c: int, magnification: int) -> bool {
    &&& c <= i32::MAX
    &&& i32::MIN <= near(c, magnification) <= i32::MAX
    &&& i32::MIN <= far(c, magnification) <= i32::MAX
}

impl Board {
    /// Whether the square of every cell lies at pixels that a display can
    /// address. A grid without cells can always be drawn.
    pub open spec fn drawable(self) -> bool {
        forall|x: int, y: int| #[trigger]
            self.has(x, y) ==> self.magnification > i32::MIN && on_screen(x, self.magnification)
                && on_screen(y, self.magnification)
    }

    /// The square to fill for cell `(x, y)`: none where the cell did not
    /// change, else its square in the colour of the board if it lives now
    /// and in black if it died.
    pub open spec fn patch(self, x: int, y: int) -> Option<Patch> {
        match self.change(x, y) {
            None => None,
            Some(live) => Some(
                Patch {
                    left: near(x, self.magnification) as i32,
                    top: near(y, self.magnification) as i32,
                    right: far(x, self.magnification) as i32,
                    bottom: far(y, self.magnification) as i32,
                    color: if live {
                        scaled(self.color)
                    } else {
                        black()
                    },
                },
            ),
        }
    }

    /// The squares of the first `columns` cells of row `y`, from the left.
    pub open spec fn row_patches(self, y: int, columns: int) -> Seq<Patch>
        decreases columns,
    {
        if columns <= 0 {
            Seq::empty()
        } else {
            match self.patch(columns - 1, y) {
                Some(patch) => self.row_patches(y, columns - 1).push(patch),
                None => self.row_patches(y, columns - 1),
            }
        }
    }

    /// The squares of the first `rows` rows, from the top.
    pub open spec fn rows_patches(self, rows: int) -> Seq<Patch>
        decreases rows,
    {
        if rows <= 0 {
            Seq::empty()
        } else {
            self.rows_patches(rows - 1) + self.row_patches(rows - 1, self.width as int)
        }
    }

    /// All squares to fill, row by row and each row from the left.
    pub open spec fn patches(self) -> Seq<Patch> {
        self.rows_patches(self.height as int)
    }

    /// The first `columns` cells of row `y` as text: `o` for a live cell,
    /// `x` for a dead one, each followed by a blank.
    pub open spec fn row_text(self, y: int, columns: int) -> Seq<char>
        decreases columns,
    {
        if columns <= 0 {
            Seq::empty()
        } else if self.live(columns - 1, y) {
            self.row_text(y, columns - 1) + seq!['o', ' ']
        } else {
            self.row_text(y, columns - 1) + seq!['x', ' ']
        }
    }

    /// The first `rows` rows as text, each after a line break.
    pub open spec fn rows_text(self, rows: int) -> Seq<char>
        decreases rows,
    {
        if rows <= 0 {
            Seq::empty()
        } else {
            self.rows_text(rows - 1) + seq!['\n'] + self.row_text(rows - 1, self.width as int)
        }
    }

    /// The grid as text: every row after a line break, and a line break at
    /// the end.
    pub open spec fn picture(self) -> Seq<char> {
        self.rows_text(self.height as int) + seq!['\n']
    }
}

/// Whether the squares of column or row `c` lie at pixels that a display
/// can address.
fn fits_screen(c: usize, magnification: i32) -> (fits: bool)
    ensures
        fits == on_screen(c as int, magnification as int),
{
    if c > 0x7fff_ffff {
        return false;
    }
    proof {
        assert(-0x4000_0000_0000_0000 <= c * magnification <= 0x4000_0000_0000_0000)
            by (nonlinear_arith)
            requires
                0 <= c <= 0x7fff_ffff,
                -0x8000_0000 <= magnification <= 0x7fff_ffff,
        ;
    }
    let near: i64 = (c as i64) * (magnification as i64);
    let far: i64 = near + (magnification as i64 - 1);
    -0x8000_0000 <= near && near <= 0x7fff_ffff && -0x8000_0000 <= far && far <= 0x7fff_ffff
}

impl<const N: usize> Plane<N> {
    /// Whether the square of every cell lies at pixels that a display can
    /// address, so that the plane can be drawn.
    pub fn can_draw(&self) -> (can: bool)
        ensures
            can == self@.drawable(),
    {
        let width = self.width();
        let height = self.height();
        let magnification = self.magnification();
        if width == 0 || height == 0 {
            return true;
        }
        if magnification == i32::MIN {
            assert(self@.has(0, 0));
            return false;
        }
        let can = fits_screen(width - 1, magnification) && fits_screen(height - 1, magnification);
        proof {
            assert(self@.has(width - 1, height - 1));
            if can {
                assert forall|x: int, y: int| #[trigger] self@.has(x, y) implies on_screen(
                    x,
                    magnification as int,
                ) && on_screen(y, magnification as int) by {
                    lemma_on_screen_between(x, width - 1, magnification as int);
                    lemma_on_screen_between(y, height - 1, magnification as int);
                }
            }
        }
        can
    }

    /// The squares to fill on a display after an advance: one for each cell
    /// that changed, row by row and each row from the left, in the colour
    /// of the plane where the cell lives now and in black where it died.
    pub fn draw(&self) -> (fills: Vec<Patch>)
        requires
            self.wf(),
            self.padded(),
            self@.drawable(),
        ensures
            fills@ == self@.patches(),
    {
        let width = self.width();
        let height = self.height();
        let magnification = self.magnification();
        let mut fills: Vec<Patch> = Vec::new();
        for y in 0..height
            invariant
                self.wf(),
                self.padded(),
                self@.drawable(),
                width == self@.width,
                height == self@.height,
                magnification == self@.magnification,
                fills@ == self@.rows_patches(y as int),
        {
            for x in 0..width
                invariant
                    y < height,
                    self.wf(),
                    self.padded(),
                    self@.drawable(),
                    width == self@.width,
                    height == self@.height,
                    magnification == self@.magnification,
                    fills@ == self@.rows_patches(y as int) + self@.row_patches(y as int, x as int),
            {
                assert(self@.has(x as int, y as int));
                let x_p: i32 = x as i32;
                let y_p: i32 = y as i32;
                let side = magnification - 1;
                let left = x_p * magnification;
                let top = y_p * magnification;
                let right = x_p * magnification + side;
                let bottom = y_p * magnification + side;
                if let Some(p) = self.changed(x, y) {
                    let color = if p {
                        to_pixel(self.color())
                    } else {
                        Pixel { r: 0, g: 0, b: 0 }
                    };
                    fills.push(Patch { left, top, right, bottom, color });
                }
                assert(fills@ =~= self@.rows_patches(y as int) + self@.row_patches(
                    y as int,
                    x + 1,
                ));
            }
        }
        fills
    }

    /// A picture of the grid as text: every row after a line break, `o` for
    /// a live cell and `x` for a dead one, each followed by a blank, and a
    /// line break at the end.
    pub fn picture(&self) -> (text: String)
        requires
            self.wf(),
            self.padded(),
        ensures
            text@ == self@.picture(),
    {
        let width = self.width();
        let height = self.height();
        let mut text = String::new();
        proof {
            reveal_strlit("\n");
            reveal_strlit("o ");
            reveal_strlit("x ");
        }
        for y in 0..height
            invariant
                self.wf(),
                self.padded(),
                width == self@.width,
                height == self@.height,
                "\n"@ == seq!['\n'],
                "o "@ == seq!['o', ' '],
                "x "@ == seq!['x', ' '],
                text@ == self@.rows_text(y as int),
        {
            text.append("\n");
            for x in 0..width
                invariant
                    y < height,
                    self.wf(),
                    self.padded(),
                    width == self@.width,
                    height == self@.height,
                    "o "@ == seq!['o', ' '],
                    "x "@ == seq!['x', ' '],
                    text@ == self@.rows_text(y as int) + seq!['\n'] + self@.row_text(
                        y as int,
                        x as int,
                    ),
            {
                if self.point(x, y) {
                    text.append("o ");
                } else {
                    text.append("x ");
                }
                assert(text@ =~= self@.rows_text(y as int) + seq!['\n'] + self@.row_text(
                    y as int,
                    x + 1,
                ));
            }
        }
        text.append("\n");
        text
    }
}

/// The squares of a column between the first and column `last` lie on the
/// screen if those of column `last` do.
pub proof fn lemma_on_screen_between(c: int, last: int, magnification: int)
    requires
        0 <= c <= last,
        i32::MIN < magnification <= i32::MAX,
        on_screen(last, magnification),
    ensures
        on_screen(c, magnification),
{
    assert(0 <= c * magnification <= last * magnification || last * magnification <= c
        * magnification <= 0) by (nonlinear_arith)
        requires
            0 <= c <= last,
    ;
}

} // verus!
