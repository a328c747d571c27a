use vstd::prelude::*;
use vstd::string::*;
use crate::color::{color, Color};
use crate::reading::{
    column, lemma_ppm_ends_with_newline, lemma_row_lines_short, lemma_row_round_trip, line_limit,
    row_samples, samples,
};

verus! {

/// The character that writes the digit `d`.
pub open spec fn digit(d: int) -> char
    recommends
        0 <= d <= 9,
{
    if d == 0 {
        '0'
    } else if d == 1 {
        '1'
    } else if d == 2 {
        '2'
    } else if d == 3 {
        '3'
    } else if d == 4 {
        '4'
    } else if d == 5 {
        '5'
    } else if d == 6 {
        '6'
    } else if d == 7 {
        '7'
    } else if d == 8 {
        '8'
    } else {
        '9'
    }
}

/// `n` in decimal, most significant digit first, without leading zeros.
pub open spec fn decimal(n: nat) -> Seq<char>
    decreases n,
{
    if n < 10 {
        seq![digit(n as int)]
    } else {
        decimal(n / 10).push(digit((n % 10) as int))
    }
}

/// The digit `d` as a one-character string.
fn digit_str(d: usize) -> (s: &'static str)
    requires
        d <= 9,
    ensures
        s@ == seq![digit(d as int)],
{
    proof {
        reveal_strlit("0");
        reveal_strlit("1");
        reveal_strlit("2");
        reveal_strlit("3");
        reveal_strlit("4");
        reveal_strlit("5");
        reveal_strlit("6");
        reveal_strlit("7");
        reveal_strlit("8");
        reveal_strlit("9");
    }
    let s = if d == 0 {
        "0"
    } else if d == 1 {
        "1"
    } else if d == 2 {
        "2"
    } else if d == 3 {
        "3"
    } else if d == 4 {
        "4"
    } else if d == 5 {
        "5"
    } else if d == 6 {
        "6"
    } else if d == 7 {
        "7"
    } else if d == 8 {
        "8"
    } else {
        "9"
    };
    assert(s@ =~= seq![digit(d as int)]);
    s
}

/// Writes `n` in decimal at the end of `s`.
fn append_decimal(s: &mut String, n: usize)
    ensures
        final(s)@ == old(s)@ + decimal(n as nat),
    decreases n,
{
    if n >= 10 {
        append_decimal(s, n / 10);
    }
    s.append(digit_str(n % 10));
    assert(s@ =~= old(s)@ + decimal(n as nat));
}

/// A channel clamped to the range that the image format writes: 0 to 255.
pub open spec fn quantized(v: int) -> int {
    if v > 255 {
        255
    } else if v < 0 {
        0
    } else {
        v
    }
}

/// A pixel as the image format writes it: the three clamped channels in
/// decimal, red first, one space between them.
pub open spec fn pixel_text(p: Color) -> Seq<char> {
    decimal(quantized(p.r as int) as nat) + seq![' '] + decimal(quantized(p.g as int) as nat)
        + seq![' '] + decimal(quantized(p.b as int) as nat)
}

/// How long a line may have grown for the next pixel still to go on it.
pub const LINE_FILL: usize = 58;

/// A row of pixels from position `from` on, as the image format writes it,
/// when the current line already holds `line_len` characters. Every pixel is
/// followed by a space. After a pixel that takes the line past `LINE_FILL`
/// characters the line ends, unless that pixel is the last of the row.
pub open spec fn row_text_from(row: Seq<Color>, from: int, line_len: int) -> Seq<char>
    decreases row.len() - from,
{
    if from < 0 || from >= row.len() {
        Seq::empty()
    } else {
        let pix = pixel_text(row[from]);
        let len = line_len + pix.len() + 1;
        if from < row.len() - 1 && len > LINE_FILL {
            pix + seq![' ', '\n'] + row_text_from(row, from + 1, 0)
        } else {
            pix + seq![' '] + row_text_from(row, from + 1, len)
        }
    }
}

/// A whole row of pixels as the image format writes it.
pub open spec fn row_text(row: Seq<Color>) -> Seq<char> {
    row_text_from(row, 0, 0)
}

/// The first `n` rows of a grid, each written out and ended by a newline.
pub open spec fn rows_text(rows: Seq<Vec<Color>>, n: int) -> Seq<char>
    decreases n,
{
    if n <= 0 {
        Seq::empty()
    } else {
        rows_text(rows, n - 1) + row_text(rows[n - 1]@) + seq!['\n']
    }
}

/// The plain-text image: the format's mark, the width and the height, the
/// largest channel value, then the rows.
pub open spec fn ppm_text(width: nat, height: nat, rows: Seq<Vec<Color>>) -> Seq<char> {
    seq!['P', '3', '\n'] + decimal(width) + seq![' '] + decimal(height) + seq!['\n', '2', '5', '5', '\n']
        + rows_text(rows, rows.len() as int)
}

/// A grid of colour samples, `pixels[y][x]`, with the size it is meant to
/// have.
#[derive(Debug)]
pub struct Canvas {
    pub height: usize,
    pub width: usize,
    pub pixels: Vec<Vec<Color>>,
}

impl Canvas {
    /// The grid has `height` rows of `width` pixels each.
    pub open spec fn wf(&self) -> bool {
        &&& self.pixels@.len() == self.height
        &&& forall|y: int| 0 <= y < self.pixels@.len() ==> (#[trigger] self.pixels@[y])@.len() == self.width
    }

    /// The sample at column `x` of row `y`.
    pub open spec fn at(&self, x: int, y: int) -> Color {
        self.pixels@[y]@[x]
    }

    /// Whether two canvases have the same size and the same sample in every
    /// place.
    pub fn equals(&self, c: Canvas) -> (same: bool)
        ensures
            same == (self.width == c.width && self.height == c.height && grids_equal(
                self.pixels@,
                c.pixels@,
            )),
    {
        (self.width == c.width) && (self.height == c.height) && c_equals(&self.pixels, &c.pixels)
    }

    /// Sets the sample at column `x` of row `y`; every other sample and the
    /// shape of the grid stay.
    pub fn write_pixel(&mut self, x: usize, y: usize, c: Color)
        requires
            y < old(self).pixels@.len(),
            x < old(self).pixels@[y as int]@.len(),
        ensures
            final(self).width == old(self).width,
            final(self).height == old(self).height,
            final(self).pixels@.len() == old(self).pixels@.len(),
            final(self).pixels@[y as int]@ == old(self).pixels@[y as int]@.update(x as int, c),
            forall|j: int|
                0 <= j < old(self).pixels@.len() && j != y ==> final(self).pixels@[j] == old(
                    self,
                ).pixels@[j],
            old(self).wf() ==> final(self).wf(),
    {
        self.pixels[y][x] = c;
    }

    pub fn pixel_at(&self, x: usize, y: usize) -> (c: Color)
        requires
            y < self.pixels@.len(),
            x < self.pixels@[y as int]@.len(),
        ensures
            c == self.at(x as int, y as int),
    {
        self.pixels[y][x]
    }

    /// A channel as the image format writes it: clamped to 0..=255.
    pub fn pix_255(value: i32) -> (q: i32)
        ensures
            q == quantized(value as int),
    {
        let mut result: i32 = value;
        result = if result > 255 { 255 } else { result };
        result = if result < 0 { 0 } else { result };
        result
    }

    pub fn pixel_to_string(p: Color) -> (s: String)
        ensures
            s@ == pixel_text(p),
    {
        let mut s = String::new();
        append_decimal(&mut s, Self::pix_255(p.r) as usize);
        s.append(" ");
        append_decimal(&mut s, Self::pix_255(p.g) as usize);
        s.append(" ");
        append_decimal(&mut s, Self::pix_255(p.b) as usize);
        proof {
            reveal_strlit(" ");
            assert(s@ =~= pixel_text(p));
        }
        s
    }

    /// A row of pixels as the image format writes it: each pixel followed by
    /// a space, and lines ended at pixel boundaries so that none grows past
    /// 70 characters. Read back word by word, the text gives the channels of
    /// the row as they were written.
    pub fn pixel_row_to_string(row: &Vec<Color>) -> (s: String)
        ensures
            s@ == row_text(row@),
            forall|j: int| 0 <= j <= s@.len() ==> #[trigger] column(0, s@, j) <= line_limit(),
            samples(s@) == row_samples(row@),
    {
        let mut s = String::new();
        let mut index: usize = 0;
        let mut line_length: usize = 0;

        while index < row.len()
            invariant
                index <= row.len(),
                line_length <= LINE_FILL + 12,
                index < row.len() ==> line_length <= LINE_FILL,
                s@ + row_text_from(row@, index as int, line_length as int) == row_text(row@),
            decreases row.len() - index,
        {
            let new_pix = Self::pixel_to_string(row[index]);
            proof {
                lemma_pixel_text_len(row[index as int]);
                reveal_strlit(" ");
                reveal_strlit("\n");
            }
            let ghost before = s@;
            let ghost len_before = line_length as int;
            line_length = line_length + new_pix.as_str().unicode_len() + 1;

            s.append(new_pix.as_str());
            s.append(" ");

            if index + 1 < row.len() && line_length > LINE_FILL {
                s.append("\n");
                line_length = 0;
                assert(s@ =~= before + (pixel_text(row@[index as int]) + seq![' ', '\n']));
            } else {
                assert(s@ =~= before + (pixel_text(row@[index as int]) + seq![' ']));
            }
            assert(s@ + row_text_from(row@, index + 1, line_length as int) =~= before
                + row_text_from(row@, index as int, len_before));
            index += 1;
        }
        assert(s@ =~= row_text(row@));
        proof {
            lemma_row_lines_short(row@);
            lemma_row_round_trip(row@);
        }
        s
    }

    /// The canvas as a plain-text image: header, then one written row per
    /// row of the grid, each ended by a newline.
    pub fn to_ppm(&self) -> (text: String)
        ensures
            text@ == ppm_text(self.width as nat, self.height as nat, self.pixels@),
            text@.len() > 0 && text@.last() == '\n',
    {
        let mut f = String::new();
        f.append("P3\n");
        append_decimal(&mut f, self.width);
        f.append(" ");
        append_decimal(&mut f, self.height);
        f.append("\n255\n");
        proof {
            reveal_strlit("P3\n");
            reveal_strlit(" ");
            reveal_strlit("\n255\n");
            reveal_strlit("\n");
        }
        let ghost head = f@;
        assert(head =~= seq!['P', '3', '\n'] + decimal(self.width as nat) + seq![' '] + decimal(
            self.height as nat,
        ) + seq!['\n', '2', '5', '5', '\n']);
        let mut i: usize = 0;
        while i < self.pixels.len()
            invariant
                i <= self.pixels.len(),
                f@ == head + rows_text(self.pixels@, i as int),
            decreases self.pixels.len() - i,
        {
            let ghost before = f@;
            let row = Self::pixel_row_to_string(&self.pixels[i]);
            f.append(row.as_str());
            f.append("\n");
            proof {
                reveal_strlit("\n");
                assert(f@ =~= before + (row_text(self.pixels@[i as int]@) + seq!['\n']));
                assert(f@ =~= head + rows_text(self.pixels@, i + 1));
            }
            i += 1;
        }
        proof {
            lemma_ppm_ends_with_newline(self.width as nat, self.height as nat, self.pixels@);
        }
        f
    }
}

/// Whether two grids have the same rows.
pub open spec fn grids_equal(a: Seq<Vec<Color>>, b: Seq<Vec<Color>>) -> bool {
    &&& a.len() == b.len()
    &&& forall|n: int| 0 <= n < a.len() ==> (#[trigger] a[n])@ == b[n]@
}

/// Whether two rows hold the same samples.
fn rows_equal(a: &Vec<Color>, b: &Vec<Color>) -> (same: bool)
    ensures
        same == (a@ == b@),
{
    if a.len() != b.len() {
        return false;
    }
    let mut m: usize = 0;
    while m < a.len()
        invariant
            m <= a.len(),
            a.len() == b.len(),
            forall|k: int| 0 <= k < m ==> a@[k] == b@[k],
        decreases a.len() - m,
    {
        if !a[m].equals(b[m]) {
            return false;
        }
        m += 1;
    }
    assert(a@ =~= b@);
    true
}

/// Whether two grids have the same number of rows and equal rows throughout.
pub fn c_equals(a: &Vec<Vec<Color>>, b: &Vec<Vec<Color>>) -> (same: bool)
    ensures
        same == grids_equal(a@, b@),
{
    if a.len() != b.len() {
        return false;
    }
    let mut n: usize = 0;
    while n < a.len()
        invariant
            n <= a.len(),
            a.len() == b.len(),
            forall|k: int| 0 <= k < n ==> (#[trigger] a@[k])@ == b@[k]@,
        decreases a.len() - n,
    {
        if !rows_equal(&a[n], &b[n]) {
            return false;
        }
        n += 1;
    }
    true
}

/// A canvas of `width` by `height` samples, all black.
pub fn canvas(width: usize, height: usize) -> (c: Canvas)
    ensures
        c.width == width,
        c.height == height,
        c.wf(),
        forall|x: int, y: int| 0 <= x < width && 0 <= y < height ==> c.at(x, y) == (Color { r: 0, g: 0, b: 0 }),
{
    let mut row: Vec<Color> = Vec::new();
    let mut x: usize = 0;
    while x < width
        invariant
            x <= width,
            row@.len() == x,
            forall|k: int| 0 <= k < x ==> row@[k] == (Color { r: 0, g: 0, b: 0 }),
        decreases width - x,
    {
        row.push(color(0, 0, 0));
        x += 1;
    }
    let mut v: Vec<Vec<Color>> = Vec::new();
    let mut y: usize = 0;
    while y < height
        invariant
            y <= height,
            v@.len() == y,
            row@.len() == width,
            forall|k: int| 0 <= k < width ==> row@[k] == (Color { r: 0, g: 0, b: 0 }),
            forall|j: int| 0 <= j < y ==> (#[trigger] v@[j])@ == row@,
        decreases height - y,
    {
        v.push(row.clone());
        y += 1;
    }
    Canvas { width, height, pixels: v }
}

/// A number below 1000 takes at most three digits.
pub proof fn lemma_decimal_len(n: nat)
    ensures
        decimal(n).len() >= 1,
        n < 10 ==> decimal(n).len() == 1,
        10 <= n < 100 ==> decimal(n).len() == 2,
        100 <= n < 1000 ==> decimal(n).len() == 3,
    decreases n,
{
    if n >= 10 {
        lemma_decimal_len(n / 10);
    }
}

/// A written pixel takes between 5 and 11 characters.
pub proof fn lemma_pixel_text_len(p: Color)
    ensures
        5 <= pixel_text(p).len() <= 11,
{
    lemma_decimal_len(quantized(p.r as int) as nat);
    lemma_decimal_len(quantized(p.g as int) as nat);
    lemma_decimal_len(quantized(p.b as int) as nat);
}

} // verus!
