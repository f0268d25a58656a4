use vstd::prelude::*;
use crate::matrix::{filled, has_shape, Matrix};

verus! {

/// A color with each channel already brought to the 8-bit range.
pub type Rgb8 = (u8, u8, u8);

/// The character of decimal digit `d`.
pub open spec fn digit_char(d: nat) -> char
    recommends
        d < 10,
{
    ((48 + d) as u8) as char
}

/// `n` written in decimal, without leading zeros.
pub open spec fn decimal(n: nat) -> Seq<char>
    decreases n,
{
    if n < 10 {
        seq![digit_char(n)]
    } else {
        decimal(n / 10).push(digit_char(n % 10))
    }
}

/// One pixel as text: its three channels in decimal, separated by spaces.
pub open spec fn pixel_text(p: Rgb8) -> Seq<char> {
    decimal(p.0 as nat) + seq![' '] + decimal(p.1 as nat) + seq![' '] + decimal(p.2 as nat)
}

/// A row of pixels as text, the pixels separated by single spaces.
pub open spec fn row_text(row: Seq<Rgb8>) -> Seq<char>
    decreases row.len(),
{
    if row.len() == 0 {
        seq![]
    } else if row.len() == 1 {
        pixel_text(row[0])
    } else {
        row_text(row.drop_last()) + seq![' '] + pixel_text(row.last())
    }
}

/// Each row as text, each followed by a line break.
pub open spec fn rows_text(rows: Seq<Seq<Rgb8>>) -> Seq<char>
    decreases rows.len(),
{
    if rows.len() == 0 {
        seq![]
    } else {
        rows_text(rows.drop_last()) + row_text(rows.last()) + seq!['\n']
    }
}

/// The plain-text portable pixmap of a `w` by `h` image: the tag `P3`, the
/// dimensions, the largest channel value 255, then the rows.
pub open spec fn ppm_text(w: nat, h: nat, rows: Seq<Seq<Rgb8>>) -> Seq<char> {
    seq!['P', '3', '\n'] + decimal(w) + seq![' '] + decimal(h) + seq!['\n', '2', '5', '5', '\n']
        + rows_text(rows)
}

/// Relies on `String::push`, which appends one character at the end.
#[verifier::external_body]
fn push_char(s: &mut String, c: char)
    ensures
        final(s)@ == old(s)@.push(c),
{
    s.push(c);
}

/// Appends `n` in decimal.
fn push_decimal(s: &mut String, n: usize)
    ensures
        final(s)@ == old(s)@ + decimal(n as nat),
    decreases n,
{
    if n >= 10 {
        push_decimal(s, n / 10);
    }
    let d = (n % 10) as u8;
    push_char(s, (48 + d) as char);
    assert(final(s)@ =~= old(s)@ + decimal(n as nat));
}

/// A `width` by `height` grid of colors, addressed by column `x` and row `y`.
pub struct Canvas<T> {
    grid: Matrix<T>,
}

impl<T> View for Canvas<T> {
    type V = Seq<Seq<T>>;

    /// Row by row: `self@[y][x]` is the pixel at `(x, y)`.
    closed spec fn view(&self) -> Seq<Seq<T>> {
        self.grid@
    }
}

impl<T> Canvas<T> {
    pub closed spec fn spec_width(&self) -> nat {
        self.grid.num_cols()
    }

    pub closed spec fn spec_height(&self) -> nat {
        self.grid.num_rows()
    }

    /// `spec_height()` rows of `spec_width()` pixels.
    pub open spec fn wf(&self) -> bool {
        has_shape(self@, self.spec_width(), self.spec_height())
    }

    pub fn width(&self) -> (w: usize)
        ensures
            w == self.spec_width(),
    {
        self.grid.width()
    }

    pub fn height(&self) -> (h: usize)
        ensures
            h == self.spec_height(),
    {
        self.grid.height()
    }

    /// The pixel at column `x`, row `y`.
    pub fn get_pixel(&self, x: usize, y: usize) -> (p: &T)
        requires
            self.wf(),
            x < self.spec_width(),
            y < self.spec_height(),
        ensures
            *p == self@[y as int][x as int],
    {
        self.grid.get(y, x)
    }

    /// Paints the pixel at column `x`, row `y`; every other pixel stays.
    pub fn set_pixel(&mut self, x: usize, y: usize, c: T)
        requires
            old(self).wf(),
            x < old(self).spec_width(),
            y < old(self).spec_height(),
        ensures
            final(self).wf(),
            final(self).spec_width() == old(self).spec_width(),
            final(self).spec_height() == old(self).spec_height(),
            final(self)@ == old(self)@.update(y as int, old(self)@[y as int].update(x as int, c)),
    {
        self.grid.set(y, x, c);
    }
}

impl<T: Copy> Canvas<T> {
    /// A canvas `width` wide and `height` high painted all over with `background`.
    pub fn new(width: usize, height: usize, background: T) -> (c: Self)
        ensures
            c.wf(),
            c.spec_width() == width,
            c.spec_height() == height,
            c@ == filled(width as nat, height as nat, background),
    {
        Canvas { grid: Matrix::with_dimension(width, height, background) }
    }

    /// The canvas with `f` applied to every pixel.
    pub fn map<U: Copy, F: Fn(T) -> U>(&self, f: F) -> (c: Canvas<U>)
        requires
            self.wf(),
            forall|p: T| #[trigger] f.requires((p,)),
        ensures
            c.wf(),
            c.spec_width() == self.spec_width(),
            c.spec_height() == self.spec_height(),
            forall|y: int, x: int|
                0 <= y < self.spec_height() && 0 <= x < self.spec_width() ==> f.ensures(
                    (self@[y][x],),
                    #[trigger] c@[y][x],
                ),
    {
        Canvas { grid: self.grid.map(f) }
    }
}

impl Canvas<Rgb8> {
    /// The canvas as a plain-text portable pixmap.
    pub fn to_ppm(&self) -> (s: String)
        requires
            self.wf(),
        ensures
            s@ == ppm_text(self.spec_width(), self.spec_height(), self@),
    {
        let w = self.grid.width();
        let h = self.grid.height();
        let mut s = String::new();
        push_char(&mut s, 'P');
        push_char(&mut s, '3');
        push_char(&mut s, '\n');
        push_decimal(&mut s, w);
        push_char(&mut s, ' ');
        push_decimal(&mut s, h);
        push_char(&mut s, '\n');
        push_char(&mut s, '2');
        push_char(&mut s, '5');
        push_char(&mut s, '5');
        push_char(&mut s, '\n');
        let ghost head = s@;
        assert(head =~= seq!['P', '3', '\n'] + decimal(w as nat) + seq![' '] + decimal(h as nat)
            + seq!['\n', '2', '5', '5', '\n']);
        let mut y: usize = 0;
        while y < h
            invariant
                self.wf(),
                w == self.spec_width(),
                h == self.spec_height(),
                y <= h,
                s@ == head + rows_text(self@.take(y as int)),
            decreases h - y,
        {
            let ghost before = s@;
            let ghost row = self@[y as int];
            let mut x: usize = 0;
            while x < w
                invariant
                    self.wf(),
                    w == self.spec_width(),
                    h == self.spec_height(),
                    y < h,
                    row == self@[y as int],
                    row.len() == w,
                    x <= w,
                    s@ == before + row_text(row.take(x as int)),
                decreases w - x,
            {
                let p = *self.grid.get(y, x);
                let ghost mid = s@;
                if x > 0 {
                    push_char(&mut s, ' ');
                }
                push_decimal(&mut s, p.0 as usize);
                push_char(&mut s, ' ');
                push_decimal(&mut s, p.1 as usize);
                push_char(&mut s, ' ');
                push_decimal(&mut s, p.2 as usize);
                x += 1;
                assert(row.take(x as int).drop_last() =~= row.take(x - 1));
                assert(s@ =~= before + row_text(row.take(x as int)));
            }
            push_char(&mut s, '\n');
            y += 1;
            assert(self@.take(y as int).drop_last() =~= self@.take(y - 1));
            assert(row.take(w as int) =~= row);
            assert(s@ =~= head + rows_text(self@.take(y as int)));
        }
        assert(self@.take(h as int) =~= self@);
        s
    }
}

} // verus!
