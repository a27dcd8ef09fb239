use vstd::prelude::*;

use crate::glyph::{glyph_of, lemma_glyph_on_ramp, ramp};
use crate::intensity::{intensity, lemma_intensity_in_range};
use crate::render::{
    cell, decimal, image_row, image_rows, image_text, lemma_sample_count, row_end, sample_count,
    image_step, video_cell, video_text, ColorMode, PixelGrid, PIX_BYTES,
};

verus! {

/// Number of times `c` occurs in `s`.
pub open spec fn count_char(s: Seq<char>, c: char) -> nat
    decreases s.len(),
{
    if s.len() == 0 {
        0
    } else {
        count_char(s.drop_last(), c) + if s.last() == c { 1nat } else { 0nat }
    }
}

/// `n` copies of `s`, one after another.
pub open spec fn repeat(s: Seq<char>, n: nat) -> Seq<char>
    decreases n,
{
    if n == 0 {
        Seq::empty()
    } else {
        repeat(s, (n - 1) as nat) + s
    }
}

/// `s` holds neither a newline nor an escape character.
pub open spec fn is_plain(s: Seq<char>) -> bool {
    forall|i: int| 0 <= i < s.len() ==> s[i] != '\n' && s[i] != '\x1B'
}

/// `s` holds no newline.
pub open spec fn is_one_line(s: Seq<char>) -> bool {
    forall|i: int| 0 <= i < s.len() ==> s[i] != '\n'
}

/// Pixel `i` of `data` has colour (r, g, b).
pub open spec fn pixel_is(data: Seq<u8>, i: int, r: u8, g: u8, b: u8) -> bool {
    data[4 * i] == r && data[4 * i + 1] == g && data[4 * i + 2] == b
}

proof fn lemma_count_add(a: Seq<char>, b: Seq<char>, c: char)
    ensures
        count_char(a + b, c) == count_char(a, c) + count_char(b, c),
    decreases b.len(),
{
    if b.len() == 0 {
        assert(a + b =~= a);
    } else {
        assert((a + b).drop_last() =~= a + b.drop_last());
        lemma_count_add(a, b.drop_last(), c);
    }
}

proof fn lemma_count_absent(s: Seq<char>, c: char)
    requires
        forall|i: int| 0 <= i < s.len() ==> s[i] != c,
    ensures
        count_char(s, c) == 0,
    decreases s.len(),
{
    if s.len() > 0 {
        lemma_count_absent(s.drop_last(), c);
    }
}

proof fn lemma_decimal_plain(v: nat)
    ensures
        is_plain(decimal(v)),
    decreases v,
{
    if v >= 10 {
        lemma_decimal_plain(v / 10);
    }
}

proof fn lemma_glyph_plain(v: int)
    requires
        0 <= v <= 255,
    ensures
        is_plain(seq![glyph_of(v)]),
{
    lemma_glyph_on_ramp(v as u8);
    let k = choose|k: int| 0 <= k < ramp().len() && ramp()[k] == glyph_of(v);
    assert(ramp()[k] == glyph_of(v));
}

proof fn lemma_cell_shape(r: u8, g: u8, b: u8, mode: ColorMode)
    ensures
        is_one_line(cell(r, g, b, mode)),
        mode == ColorMode::NoColor ==> is_plain(cell(r, g, b, mode)),
{
    lemma_intensity_in_range(r, g, b);
    lemma_glyph_plain(intensity(r, g, b));
    lemma_decimal_plain(r as nat);
    lemma_decimal_plain(g as nat);
    lemma_decimal_plain(b as nat);
}

proof fn lemma_image_row_shape(data: Seq<u8>, width: int, y: int, step: int, mode: ColorMode, n: nat)
    ensures
        is_one_line(image_row(data, width, y, step, mode, n)),
        mode == ColorMode::NoColor ==> is_plain(image_row(data, width, y, step, mode, n)),
    decreases n,
{
    if n > 0 {
        let x = (n - 1) * step;
        let i = 4 * (y * width + x);
        lemma_image_row_shape(data, width, y, step, mode, (n - 1) as nat);
        lemma_cell_shape(data[i], data[i + 1], data[i + 2], mode);
    }
}

proof fn lemma_image_rows_count(data: Seq<u8>, width: int, step: int, mode: ColorMode, n: nat)
    ensures
        count_char(image_rows(data, width, step, mode, n), '\n') == n,
        mode == ColorMode::NoColor ==> forall|i: int|
            0 <= i < image_rows(data, width, step, mode, n).len() ==> image_rows(data, width, step, mode, n)[i] != '\x1B',
    decreases n,
{
    if n > 0 {
        let prev = image_rows(data, width, step, mode, (n - 1) as nat);
        let row = image_row(data, width, (n - 1) * step, step, mode, sample_count(width, step) as nat);
        let end = row_end(mode);
        lemma_image_rows_count(data, width, step, mode, (n - 1) as nat);
        lemma_image_row_shape(data, width, (n - 1) * step, step, mode, sample_count(width, step) as nat);
        lemma_count_absent(row, '\n');
        lemma_count_absent(end.drop_last(), '\n');
        lemma_count_add(prev, row, '\n');
        lemma_count_add(prev + row, end, '\n');
        assert(end.last() == '\n');
    }
}

/// An image `H` pixels tall is drawn as exactly `⌈H / image_step(H)⌉` lines, where
/// `image_step(H)` is `2 * max(1, H / 200)`.
pub proof fn lemma_image_line_count(grid: PixelGrid, mode: ColorMode)
    ensures
        count_char(image_text(grid, mode), '\n') == sample_count(
            grid.height as int,
            2 * (if grid.height / 200 == 0 { 1 } else { grid.height as int / 200 }),
        ),
{
    let step = image_step(grid.height as int);
    lemma_sample_count(grid.height as int, step, 0);
    lemma_image_rows_count(grid.data@, grid.width as int, step, mode, sample_count(grid.height as int, step) as nat);
}

/// Without colour an image's text holds no escape character.
pub proof fn lemma_image_no_color_plain(grid: PixelGrid)
    ensures
        forall|i: int| 0 <= i < image_text(grid, ColorMode::NoColor).len()
            ==> image_text(grid, ColorMode::NoColor)[i] != '\x1B',
{
    let step = image_step(grid.height as int);
    lemma_image_rows_count(
        grid.data@,
        grid.width as int,
        step,
        ColorMode::NoColor,
        sample_count(grid.height as int, step) as nat,
    );
}

proof fn lemma_solid_row(
    data: Seq<u8>,
    width: int,
    height: int,
    y: int,
    step: int,
    n: nat,
    r: u8,
    g: u8,
    b: u8,
)
    requires
        0 <= y < height,
        0 < step,
        0 <= width,
        n <= sample_count(width, step),
        forall|i: int| 0 <= i < width * height ==> #[trigger] pixel_is(data, i, r, g, b),
    ensures
        image_row(data, width, y, step, ColorMode::NoColor, n) =~= Seq::new(
            n,
            |j: int| glyph_of(intensity(r, g, b)),
        ),
    decreases n,
{
    if n > 0 {
        let x = (n - 1) * step;
        lemma_sample_count(width, step, n - 1);
        assert(0 <= y * width + x < width * height) by (nonlinear_arith)
            requires 0 <= y < height, 0 <= x < width;
        assert(pixel_is(data, y * width + x, r, g, b));
        lemma_solid_row(data, width, height, y, step, (n - 1) as nat, r, g, b);
    }
}

proof fn lemma_solid_rows(data: Seq<u8>, width: int, height: int, step: int, n: nat, r: u8, g: u8, b: u8)
    requires
        0 < step,
        0 <= width,
        0 <= height,
        n <= sample_count(height, step),
        forall|i: int| 0 <= i < width * height ==> #[trigger] pixel_is(data, i, r, g, b),
    ensures
        image_rows(data, width, step, ColorMode::NoColor, n) == repeat(
            Seq::new(sample_count(width, step) as nat, |j: int| glyph_of(intensity(r, g, b))).push('\n'),
            n,
        ),
    decreases n,
{
    if n > 0 {
        let y = (n - 1) * step;
        lemma_sample_count(height, step, n - 1);
        lemma_sample_count(width, step, 0);
        lemma_solid_rows(data, width, height, step, (n - 1) as nat, r, g, b);
        lemma_solid_row(data, width, height, y, step, sample_count(width, step) as nat, r, g, b);
        let line = Seq::new(sample_count(width, step) as nat, |j: int| glyph_of(intensity(r, g, b)));
        assert(image_rows(data, width, step, ColorMode::NoColor, n) =~= repeat(line.push('\n'), n));
    }
}

/// Without colour, an image whose pixels all have colour (r, g, b) is drawn as
/// `⌈H / s⌉` equal lines, each the glyph for that colour repeated `⌈W / s⌉` times, where
/// `s = image_step(H)` for an image `W` wide and `H` tall.
pub proof fn lemma_solid_image(grid: PixelGrid, r: u8, g: u8, b: u8)
    requires
        grid.wf(),
        forall|i: int|
            0 <= i < (grid.width as int) * (grid.height as int) ==> #[trigger] pixel_is(grid.data@, i, r, g, b),
    ensures
        image_text(grid, ColorMode::NoColor) == repeat(
            Seq::new(
                sample_count(grid.width as int, image_step(grid.height as int)) as nat,
                |j: int| glyph_of(intensity(r, g, b)),
            ).push('\n'),
            sample_count(grid.height as int, image_step(grid.height as int)) as nat,
        ),
{
    let step = image_step(grid.height as int);
    lemma_solid_rows(
        grid.data@,
        grid.width as int,
        grid.height as int,
        step,
        sample_count(grid.height as int, step) as nat,
        r,
        g,
        b,
    );
}

/// Without colour, the text for the first `n` pixels of a frame holds no escape character.
pub proof fn lemma_video_no_color_plain(frame: Seq<u8>, width: int, n: nat)
    ensures
        forall|i: int| 0 <= i < video_text(frame, width, ColorMode::NoColor, n).len()
            ==> video_text(frame, width, ColorMode::NoColor, n)[i] != '\x1B',
    decreases n,
{
    if n > 0 {
        let p = n - 1;
        let i = PIX_BYTES as int * p;
        lemma_video_no_color_plain(frame, width, (n - 1) as nat);
        lemma_cell_shape(frame[i], frame[i + 1], frame[i + 2], ColorMode::NoColor);
        let prev = video_text(frame, width, ColorMode::NoColor, (n - 1) as nat);
        let last = video_cell(frame, width, p, ColorMode::NoColor);
        assert(forall|k: int| 0 <= k < last.len() ==> last[k] != '\x1B');
        assert(video_text(frame, width, ColorMode::NoColor, n) == prev + last);
    }
}

} // verus!
