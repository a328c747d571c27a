use vstd::prelude::*;
use crate::canvas::{
    decimal, digit, pixel_text, ppm_text, quantized, row_text, row_text_from, rows_text, LINE_FILL,
};
use crate::color::Color;

verus! {

/// The characters that separate numbers in a written image.
pub open spec fn is_blank(c: char) -> bool {
    c == ' ' || c == '\n'
}

/// The digit that a character writes; 0 for any other character.
pub open spec fn digit_value(c: char) -> nat {
    if c == '1' {
        1
    } else if c == '2' {
        2
    } else if c == '3' {
        3
    } else if c == '4' {
        4
    } else if c == '5' {
        5
    } else if c == '6' {
        6
    } else if c == '7' {
        7
    } else if c == '8' {
        8
    } else if c == '9' {
        9
    } else {
        0
    }
}

/// The number that a word of digits writes, read in base ten.
pub open spec fn number(word: Seq<char>) -> nat
    decreases word.len(),
{
    if word.len() == 0 {
        0
    } else {
        number(word.drop_last()) * 10 + digit_value(word.last())
    }
}

/// The number of a finished word, if there is one.
pub open spec fn flush(word: Seq<char>) -> Seq<nat> {
    if word.len() == 0 {
        Seq::empty()
    } else {
        seq![number(word)]
    }
}

/// The numbers read from `text` by a reader that is in the middle of `word`:
/// blanks end a word, everything else extends it.
pub open spec fn read_from(text: Seq<char>, word: Seq<char>) -> Seq<nat>
    decreases text.len(),
{
    if text.len() == 0 {
        flush(word)
    } else if is_blank(text[0]) {
        flush(word) + read_from(text.skip(1), Seq::empty())
    } else {
        read_from(text.skip(1), word.push(text[0]))
    }
}

/// The numbers written in `text`, in order: its words, split at spaces and
/// newlines, each read in base ten.
pub open spec fn samples(text: Seq<char>) -> Seq<nat> {
    read_from(text, Seq::empty())
}

/// The three channels of a pixel as the image format holds them.
pub open spec fn pixel_samples(p: Color) -> Seq<nat> {
    seq![quantized(p.r as int) as nat, quantized(p.g as int) as nat, quantized(p.b as int) as nat]
}

/// The channels of the pixels of a row from position `from` on, in order.
pub open spec fn row_samples_from(row: Seq<Color>, from: int) -> Seq<nat>
    decreases row.len() - from,
{
    if from < 0 || from >= row.len() {
        Seq::empty()
    } else {
        pixel_samples(row[from]) + row_samples_from(row, from + 1)
    }
}

/// The channels of a whole row.
pub open spec fn row_samples(row: Seq<Color>) -> Seq<nat> {
    row_samples_from(row, 0)
}

/// The channels of the first `n` rows of a grid, row after row.
pub open spec fn rows_samples(rows: Seq<Vec<Color>>, n: int) -> Seq<nat>
    decreases n,
{
    if n <= 0 {
        Seq::empty()
    } else {
        rows_samples(rows, n - 1) + row_samples(rows[n - 1]@)
    }
}

/// Whether every character of a word is a digit.
pub open spec fn all_digits(word: Seq<char>) -> bool {
    forall|i: int| 0 <= i < word.len() ==> #[trigger] word[i] == digit(digit_value(word[i]) as int)
}

/// A decimal numeral is a non-empty word of digits that reads as the number
/// it was written from.
pub proof fn lemma_number_of_decimal(n: nat)
    ensures
        number(decimal(n)) == n,
        all_digits(decimal(n)),
        decimal(n).len() >= 1,
    decreases n,
{
    if n < 10 {
        assert(decimal(n).drop_last() =~= Seq::<char>::empty());
        assert(number(decimal(n).drop_last()) == 0);
    } else {
        lemma_number_of_decimal(n / 10);
        assert(decimal(n).drop_last() =~= decimal(n / 10));
        assert(decimal(n).last() == digit((n % 10) as int));
    }
}

/// A reader in the middle of a word runs through digits without finishing
/// it.
pub proof fn lemma_read_through_word(w: Seq<char>, rest: Seq<char>, word: Seq<char>)
    requires
        all_digits(w),
    ensures
        read_from(w + rest, word) == read_from(rest, word + w),
    decreases w.len(),
{
    if w.len() == 0 {
        assert(w + rest =~= rest);
        assert(word + w =~= word);
    } else {
        let c = w[0];
        assert(c == digit(digit_value(c) as int));
        assert(!is_blank(c));
        assert((w + rest)[0] == c);
        assert((w + rest).skip(1) =~= w.skip(1) + rest);
        assert forall|i: int| 0 <= i < w.skip(1).len() implies #[trigger] w.skip(1)[i] == digit(
            digit_value(w.skip(1)[i]) as int,
        ) by {
            assert(w.skip(1)[i] == w[i + 1]);
        }
        lemma_read_through_word(w.skip(1), rest, word.push(c));
        assert(word.push(c) + w.skip(1) =~= word + w);
    }
}

/// A numeral followed by a blank reads as its number, and the reader starts
/// afresh behind the blank.
pub proof fn lemma_read_numeral(n: nat, blank: char, rest: Seq<char>)
    requires
        is_blank(blank),
    ensures
        read_from(decimal(n) + seq![blank] + rest, Seq::empty()) == seq![n] + read_from(
            rest,
            Seq::empty(),
        ),
{
    lemma_number_of_decimal(n);
    let tail = seq![blank] + rest;
    assert(decimal(n) + seq![blank] + rest =~= decimal(n) + tail);
    lemma_read_through_word(decimal(n), tail, Seq::empty());
    assert(Seq::<char>::empty() + decimal(n) =~= decimal(n));
    assert(tail[0] == blank);
    assert(tail.skip(1) =~= rest);
}

/// A blank in front of a reader that is between words changes nothing.
pub proof fn lemma_read_blank(blank: char, rest: Seq<char>)
    requires
        is_blank(blank),
    ensures
        read_from(seq![blank] + rest, Seq::empty()) == read_from(rest, Seq::empty()),
{
    let text = seq![blank] + rest;
    assert(text[0] == blank);
    assert(text.skip(1) =~= rest);
    assert(flush(Seq::<char>::empty()) + read_from(rest, Seq::empty()) =~= read_from(
        rest,
        Seq::empty(),
    ));
}

/// A written pixel followed by a space reads as its three channels.
pub proof fn lemma_read_pixel(p: Color, rest: Seq<char>)
    ensures
        read_from(pixel_text(p) + seq![' '] + rest, Seq::empty()) == pixel_samples(p) + read_from(
            rest,
            Seq::empty(),
        ),
{
    let r = quantized(p.r as int) as nat;
    let g = quantized(p.g as int) as nat;
    let b = quantized(p.b as int) as nat;
    let t3 = decimal(b) + seq![' '] + rest;
    let t2 = decimal(g) + seq![' '] + t3;
    let t1 = decimal(r) + seq![' '] + t2;
    assert(pixel_text(p) + seq![' '] + rest =~= t1);
    lemma_read_numeral(r, ' ', t2);
    lemma_read_numeral(g, ' ', t3);
    lemma_read_numeral(b, ' ', rest);
    assert(seq![r] + (seq![g] + (seq![b] + read_from(rest, Seq::empty()))) =~= pixel_samples(p)
        + read_from(rest, Seq::empty()));
}

/// What is read from a written row, whatever follows it, is the row's
/// channels and then what is read from the rest.
pub proof fn lemma_read_row_from(row: Seq<Color>, from: int, line_len: int, rest: Seq<char>)
    requires
        0 <= from <= row.len(),
    ensures
        read_from(row_text_from(row, from, line_len) + rest, Seq::empty()) == row_samples_from(
            row,
            from,
        ) + read_from(rest, Seq::empty()),
    decreases row.len() - from,
{
    if from >= row.len() {
        assert(row_text_from(row, from, line_len) + rest =~= rest);
        assert(row_samples_from(row, from) + read_from(rest, Seq::empty()) =~= read_from(
            rest,
            Seq::empty(),
        ));
    } else {
        let pix = pixel_text(row[from]);
        let len = line_len + pix.len() + 1;
        if from < row.len() - 1 && len > LINE_FILL {
            let tail = row_text_from(row, from + 1, 0) + rest;
            assert(row_text_from(row, from, line_len) + rest =~= pix + seq![' '] + (seq!['\n']
                + tail));
            lemma_read_pixel(row[from], seq!['\n'] + tail);
            lemma_read_blank('\n', tail);
            lemma_read_row_from(row, from + 1, 0, rest);
        } else {
            let tail = row_text_from(row, from + 1, len) + rest;
            assert(row_text_from(row, from, line_len) + rest =~= pix + seq![' '] + tail);
            lemma_read_pixel(row[from], tail);
            lemma_read_row_from(row, from + 1, len, rest);
        }
        assert(pixel_samples(row[from]) + (row_samples_from(row, from + 1) + read_from(
            rest,
            Seq::empty(),
        )) =~= row_samples_from(row, from) + read_from(rest, Seq::empty()));
    }
}

/// Reading a written row back gives the row's channels as they were
/// written: each clamped to 0..=255, pixel after pixel, red, green, blue.
pub proof fn lemma_row_round_trip(row: Seq<Color>)
    ensures
        samples(row_text(row)) == row_samples(row),
{
    lemma_read_row_from(row, 0, 0, Seq::empty());
    assert(row_text(row) + Seq::<char>::empty() =~= row_text(row));
    assert(row_samples(row) + read_from(Seq::<char>::empty(), Seq::empty()) =~= row_samples(row));
}

/// What is read from the first `n` written rows, whatever follows them, is
/// their channels and then what is read from the rest.
pub proof fn lemma_read_rows(rows: Seq<Vec<Color>>, n: int, rest: Seq<char>)
    requires
        0 <= n <= rows.len(),
    ensures
        read_from(rows_text(rows, n) + rest, Seq::empty()) == rows_samples(rows, n) + read_from(
            rest,
            Seq::empty(),
        ),
    decreases n,
{
    if n <= 0 {
        assert(rows_text(rows, n) + rest =~= rest);
        assert(rows_samples(rows, n) + read_from(rest, Seq::empty()) =~= read_from(
            rest,
            Seq::empty(),
        ));
    } else {
        let row = rows[n - 1]@;
        let tail = seq!['\n'] + rest;
        assert(rows_text(rows, n) + rest =~= rows_text(rows, n - 1) + (row_text(row) + tail));
        lemma_read_rows(rows, n - 1, row_text(row) + tail);
        lemma_read_row_from(row, 0, 0, tail);
        lemma_read_blank('\n', rest);
        assert(rows_samples(rows, n - 1) + (row_samples(row) + read_from(rest, Seq::empty()))
            =~= rows_samples(rows, n) + read_from(rest, Seq::empty()));
    }
}

/// Reading the written rows of a grid back gives every channel of every
/// pixel as it was written, row after row.
pub proof fn lemma_rows_round_trip(rows: Seq<Vec<Color>>)
    ensures
        samples(rows_text(rows, rows.len() as int)) == rows_samples(rows, rows.len() as int),
{
    let n = rows.len() as int;
    lemma_read_rows(rows, n, Seq::empty());
    assert(rows_text(rows, n) + Seq::<char>::empty() =~= rows_text(rows, n));
    assert(rows_samples(rows, n) + read_from(Seq::<char>::empty(), Seq::empty()) =~= rows_samples(
        rows,
        n,
    ));
}

/// How many characters the current line holds after the first `j` characters
/// of `text`, if it held `start` before them.
pub open spec fn column(start: int, text: Seq<char>, j: int) -> int
    decreases j,
{
    if j <= 0 {
        start
    } else if text[j - 1] == '\n' {
        0
    } else {
        column(start, text, j - 1) + 1
    }
}

/// The longest that a written line may be.
pub open spec fn line_limit() -> int {
    70
}

/// Along a stretch without a newline the column grows by one per character.
pub proof fn lemma_column_plain(start: int, text: Seq<char>, j: int)
    requires
        0 <= j <= text.len(),
        forall|k: int| 0 <= k < j ==> text[k] != '\n',
    ensures
        column(start, text, j) == start + j,
    decreases j,
{
    if j > 0 {
        lemma_column_plain(start, text, j - 1);
    }
}

/// The column within the first of two joined texts does not depend on the
/// second, and the column within the second goes on from where the first
/// ended.
pub proof fn lemma_column_join(start: int, a: Seq<char>, b: Seq<char>, j: int)
    requires
        0 <= j <= a.len() + b.len(),
    ensures
        j <= a.len() ==> column(start, a + b, j) == column(start, a, j),
        j >= a.len() ==> column(start, a + b, j) == column(
            column(start, a, a.len() as int),
            b,
            j - a.len(),
        ),
    decreases j,
{
    if j > 0 {
        lemma_column_join(start, a, b, j - 1);
        if j <= a.len() {
            assert((a + b)[j - 1] == a[j - 1]);
        } else {
            assert((a + b)[j - 1] == b[j - 1 - a.len()]);
        }
    }
}

/// A written pixel holds no newline.
pub proof fn lemma_pixel_text_plain(p: Color)
    ensures
        forall|k: int| 0 <= k < pixel_text(p).len() ==> pixel_text(p)[k] != '\n',
        5 <= pixel_text(p).len() <= 11,
{
    let r = quantized(p.r as int) as nat;
    let g = quantized(p.g as int) as nat;
    let b = quantized(p.b as int) as nat;
    lemma_number_of_decimal(r);
    lemma_number_of_decimal(g);
    lemma_number_of_decimal(b);
    crate::canvas::lemma_pixel_text_len(p);
    let dr = decimal(r);
    let dg = decimal(g);
    let db = decimal(b);
    assert forall|k: int| 0 <= k < pixel_text(p).len() implies pixel_text(p)[k] != '\n' by {
        let t = pixel_text(p);
        if k < dr.len() {
            assert(t[k] == dr[k]);
            assert(dr[k] == digit(digit_value(dr[k]) as int));
        } else if k == dr.len() {
            assert(t[k] == ' ');
        } else if k < dr.len() + 1 + dg.len() {
            assert(t[k] == dg[k - dr.len() - 1]);
            assert(dg[k - dr.len() - 1] == digit(digit_value(dg[k - dr.len() - 1]) as int));
        } else if k == dr.len() + 1 + dg.len() {
            assert(t[k] == ' ');
        } else {
            assert(t[k] == db[k - dr.len() - dg.len() - 2]);
            assert(db[k - dr.len() - dg.len() - 2] == digit(
                digit_value(db[k - dr.len() - dg.len() - 2]) as int,
            ));
        }
    }
}

/// Within the written rest of a row no line grows past the limit, if the
/// line that the rest starts on is not yet filled.
pub proof fn lemma_row_lines_from(row: Seq<Color>, from: int, line_len: int, j: int)
    requires
        0 <= from <= row.len(),
        0 <= line_len <= LINE_FILL,
        0 <= j <= row_text_from(row, from, line_len).len(),
    ensures
        0 <= column(line_len, row_text_from(row, from, line_len), j) <= line_limit(),
    decreases row.len() - from,
{
    if from < row.len() {
        let pix = pixel_text(row[from]);
        let len = line_len + pix.len() + 1;
        lemma_pixel_text_plain(row[from]);
        let word = pix + seq![' '];
        assert forall|k: int| 0 <= k < word.len() implies word[k] != '\n' by {
            if k < pix.len() {
                assert(word[k] == pix[k]);
            }
        }
        lemma_column_plain(line_len, word, word.len() as int);
        if from < row.len() - 1 && len > LINE_FILL {
            let head = word + seq!['\n'];
            let tail = row_text_from(row, from + 1, 0);
            assert(row_text_from(row, from, line_len) =~= head + tail);
            lemma_column_join(line_len, head, tail, j);
            if j <= head.len() {
                lemma_column_join(line_len, word, seq!['\n'], j);
                if j <= word.len() {
                    assert forall|k: int| 0 <= k < j implies word[k] != '\n' by {}
                    lemma_column_plain(line_len, word, j);
                } else {
                    assert(head[j - 1] == '\n');
                }
            } else {
                assert(head[head.len() - 1] == '\n');
                assert(column(line_len, head, head.len() as int) == 0);
                lemma_row_lines_from(row, from + 1, 0, j - head.len());
            }
        } else {
            let tail = row_text_from(row, from + 1, len);
            assert(row_text_from(row, from, line_len) =~= word + tail);
            lemma_column_join(line_len, word, tail, j);
            if j <= word.len() {
                assert forall|k: int| 0 <= k < j implies word[k] != '\n' by {}
                lemma_column_plain(line_len, word, j);
            } else {
                assert(tail.len() > 0);
                assert(from + 1 < row.len());
                lemma_row_lines_from(row, from + 1, len, j - word.len());
            }
        }
    }
}

/// No line of a written row is longer than 70 characters.
pub proof fn lemma_row_lines_short(row: Seq<Color>)
    ensures
        forall|j: int|
            0 <= j <= row_text(row).len() ==> #[trigger] column(0, row_text(row), j) <= line_limit(),
{
    assert forall|j: int| 0 <= j <= row_text(row).len() implies #[trigger] column(
        0,
        row_text(row),
        j,
    ) <= line_limit() by {
        lemma_row_lines_from(row, 0, 0, j);
    }
}

/// A written image is never empty and ends with a newline.
pub proof fn lemma_ppm_ends_with_newline(width: nat, height: nat, rows: Seq<Vec<Color>>)
    ensures
        ppm_text(width, height, rows).len() > 0,
        ppm_text(width, height, rows).last() == '\n',
{
    let head = seq!['P', '3', '\n'] + decimal(width) + seq![' '] + decimal(height) + seq![
        '\n',
        '2',
        '5',
        '5',
        '\n',
    ];
    let n = rows.len() as int;
    assert(head.last() == '\n');
    if n > 0 {
        let body = rows_text(rows, n);
        assert(body =~= rows_text(rows, n - 1) + row_text(rows[n - 1]@) + seq!['\n']);
        assert(body.last() == '\n');
        assert((head + body).last() == '\n');
    } else {
        assert(rows_text(rows, n) =~= Seq::<char>::empty());
        assert(head + rows_text(rows, n) =~= head);
    }
}

} // verus!
