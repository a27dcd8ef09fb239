use vstd::prelude::*;

use crate::glyph::{get_ascii, glyph_of};
use crate::intensity::{calculate_intensity, intensity};

verus! {

/// How colour is carried into the text.
#[derive(PartialEq, Eq, Structural, Clone, Copy, Debug)]
pub enum ColorMode {
    /// Bare glyphs, no escape sequences.
    NoColor,
    /// Each glyph drawn in the pixel's colour.
    Foreground,
    /// Each pixel drawn as a space on a background of its colour.
    Background,
}

/// The character for a decimal digit.
pub open spec fn digit_char(d: int) -> char {
    seq!['0', '1', '2', '3', '4', '5', '6', '7', '8', '9'][d]
}

/// Decimal notation of a natural number, without leading zeros.
pub open spec fn decimal(v: nat) -> Seq<char>
    decreases v,
{
    if v < 10 {
        seq![digit_char(v as int)]
    } else {
        decimal(v / 10).push(digit_char((v % 10) as int))
    }
}

/// `ESC [ 38;2;r;g;b m`: draw the following text in colour (r, g, b).
pub open spec fn fg_escape(r: u8, g: u8, b: u8) -> Seq<char> {
    seq!['\x1B', '[', '3', '8', ';', '2', ';'] + decimal(r as nat) + seq![';'] + decimal(g as nat)
        + seq![';'] + decimal(b as nat) + seq!['m']
}

/// `ESC [ 48;2;r;g;b m`: draw the following text on a background of colour (r, g, b).
pub open spec fn bg_escape(r: u8, g: u8, b: u8) -> Seq<char> {
    seq!['\x1B', '[', '4', '8', ';', '2', ';'] + decimal(r as nat) + seq![';'] + decimal(g as nat)
        + seq![';'] + decimal(b as nat) + seq!['m']
}

/// The text drawn for one sampled pixel.
pub open spec fn cell(r: u8, g: u8, b: u8, mode: ColorMode) -> Seq<char> {
    match mode {
        ColorMode::NoColor => seq![glyph_of(intensity(r, g, b))],
        ColorMode::Foreground => fg_escape(r, g, b) + seq![glyph_of(intensity(r, g, b))],
        ColorMode::Background => bg_escape(r, g, b) + seq![' '],
    }
}

/// The text that closes a sampled row: colours back to white on black where colour is on,
/// then a newline.
pub open spec fn row_end(mode: ColorMode) -> Seq<char> {
    match mode {
        ColorMode::NoColor => seq!['\n'],
        ColorMode::Foreground => seq![
            '\x1B', '[', '3', '8', ';', '2', ';', '2', '5', '5', ';', '2', '5', '5', ';', '2', '5',
            '5', 'm', '\n',
        ],
        ColorMode::Background => seq![
            '\x1B', '[', '3', '8', ';', '2', ';', '2', '5', '5', ';', '2', '5', '5', ';', '2', '5',
            '5', ';', '4', '8', ';', '2', ';', '0', ';', '0', ';', '0', 'm', '\n',
        ],
    }
}

fn digit_str(d: u8) -> (s: &'static str)
    requires
        d < 10,
    ensures
        s@ == seq![digit_char(d as int)],
{
    match d {
        0 => { proof { reveal_strlit("0"); } "0" },
        1 => { proof { reveal_strlit("1"); } "1" },
        2 => { proof { reveal_strlit("2"); } "2" },
        3 => { proof { reveal_strlit("3"); } "3" },
        4 => { proof { reveal_strlit("4"); } "4" },
        5 => { proof { reveal_strlit("5"); } "5" },
        6 => { proof { reveal_strlit("6"); } "6" },
        7 => { proof { reveal_strlit("7"); } "7" },
        8 => { proof { reveal_strlit("8"); } "8" },
        _ => { proof { reveal_strlit("9"); } "9" },
    }
}

/// Appends the decimal notation of `v`.
fn push_decimal(out: &mut String, v: u8)
    ensures
        final(out)@ == old(out)@ + decimal(v as nat),
{
    reveal_with_fuel(decimal, 3);
    if v >= 100 {
        out.append(digit_str(v / 100));
        out.append(digit_str(v / 10 % 10));
        out.append(digit_str(v % 10));
        assert(decimal(v as nat) =~= seq![
            digit_char((v / 100) as int),
            digit_char((v / 10 % 10) as int),
            digit_char((v % 10) as int),
        ]);
    } else if v >= 10 {
        out.append(digit_str(v / 10));
        out.append(digit_str(v % 10));
        assert(decimal(v as nat) =~= seq![digit_char((v / 10) as int), digit_char((v % 10) as int)]);
    } else {
        out.append(digit_str(v));
    }
}

/// Appends `ESC [ <lead>;2;r;g;b m` where `lead` is `38` or `48`.
fn push_color(out: &mut String, background: bool, r: u8, g: u8, b: u8)
    ensures
        final(out)@ == old(out)@ + (if background { bg_escape(r, g, b) } else { fg_escape(r, g, b) }),
{
    let ghost start = out@;
    if background {
        out.append("\x1B[48;2;");
        proof { reveal_strlit("\x1B[48;2;"); }
    } else {
        out.append("\x1B[38;2;");
        proof { reveal_strlit("\x1B[38;2;"); }
    }
    push_decimal(out, r);
    out.append(";");
    push_decimal(out, g);
    out.append(";");
    push_decimal(out, b);
    out.append("m");
    proof {
        reveal_strlit(";");
        reveal_strlit("m");
        let want = if background { bg_escape(r, g, b) } else { fg_escape(r, g, b) };
        assert(out@ =~= start + want);
    }
}

/// Appends the text for a pixel of colour (r, g, b).
pub fn push_cell(out: &mut String, r: u8, g: u8, b: u8, mode: ColorMode)
    ensures
        final(out)@ == old(out)@ + cell(r, g, b, mode),
{
    let ghost start = out@;
    match mode {
        ColorMode::Background => {
            push_color(out, true, r, g, b);
            out.append(" ");
            proof {
                reveal_strlit(" ");
                assert(out@ =~= start + cell(r, g, b, mode));
            }
        },
        ColorMode::Foreground => {
            let v = calculate_intensity((&r, &g, &b, &0u8));
            push_color(out, false, r, g, b);
            out.append(get_ascii(v));
            assert(out@ =~= start + cell(r, g, b, mode));
        },
        ColorMode::NoColor => {
            let v = calculate_intensity((&r, &g, &b, &0u8));
            out.append(get_ascii(v));
        },
    }
}

/// Appends the text that closes a sampled row.
pub fn push_row_end(out: &mut String, mode: ColorMode)
    ensures
        final(out)@ == old(out)@ + row_end(mode),
{
    let ghost start = out@;
    match mode {
        ColorMode::Background => {
            out.append("\x1B[38;2;255;255;255;48;2;0;0;0m");
            proof { reveal_strlit("\x1B[38;2;255;255;255;48;2;0;0;0m"); }
        },
        ColorMode::Foreground => {
            out.append("\x1B[38;2;255;255;255m");
            proof { reveal_strlit("\x1B[38;2;255;255;255m"); }
        },
        ColorMode::NoColor => {},
    }
    out.append("\n");
    proof {
        reveal_strlit("\n");
        assert(out@ =~= start + row_end(mode));
    }
}

/// A decoded image: `width × height` pixels of four bytes (red, green, blue, alpha),
/// row by row from the top left.
pub struct PixelGrid {
    pub width: u32,
    pub height: u32,
    pub data: Vec<u8>,
}

impl PixelGrid {
    /// The buffer holds exactly four bytes for every pixel.
    pub open spec fn wf(&self) -> bool {
        self.data@.len() == 4 * (self.width as int) * (self.height as int)
    }

    /// A grid over `data`, or `None` where its length is not four bytes per pixel.
    pub fn new(width: u32, height: u32, data: Vec<u8>) -> (grid: Option<PixelGrid>)
        ensures
            grid.is_some() <==> data@.len() == 4 * (width as int) * (height as int),
            grid matches Some(g) ==> g.width == width && g.height == height && g.data@ == data@,
    {
        assert(width as u64 * height as u64 <= u64::MAX) by (nonlinear_arith)
            requires width <= u32::MAX, height <= u32::MAX;
        let n: u64 = width as u64 * height as u64;
        let len: usize = data.len();
        if n <= (usize::MAX / 4) as u64 && len == 4 * (n as usize) {
            assert(n as int == width as int * height as int);
            assert(len as int == 4 * (width as int) * (height as int)) by (nonlinear_arith)
                requires n as int == width as int * height as int, len == 4 * n;
            Some(PixelGrid { width, height, data })
        } else {
            assert(n as int == width as int * height as int);
            assert(data@.len() != 4 * (width as int) * (height as int)) by (nonlinear_arith)
                requires
                    n as int == width as int * height as int,
                    n > usize::MAX / 4 || len != 4 * n,
                    len == data@.len(),
                    len <= usize::MAX;
            None
        }
    }
}

/// Number of samples taken, one every `step`, over `len` positions: `⌈len / step⌉`.
pub open spec fn sample_count(len: int, step: int) -> int {
    (len + step - 1) / step
}

/// The sampling stride of an image `height` pixels tall: twice `height / 200`, or 2 where
/// that quotient is 0. It is the same across and down.
pub open spec fn image_step(height: int) -> int {
    if height / 200 == 0 { 2 } else { 2 * (height / 200) }
}

/// The text for the pixel at (x, y) of a grid `width` wide.
pub open spec fn grid_cell(data: Seq<u8>, width: int, x: int, y: int, mode: ColorMode) -> Seq<char> {
    let i = 4 * (y * width + x);
    cell(data[i], data[i + 1], data[i + 2], mode)
}

/// The first `n` samples of row `y`, taken every `step` pixels from the left.
pub open spec fn image_row(data: Seq<u8>, width: int, y: int, step: int, mode: ColorMode, n: nat) -> Seq<char>
    decreases n,
{
    if n == 0 {
        Seq::empty()
    } else {
        image_row(data, width, y, step, mode, (n - 1) as nat) + grid_cell(data, width, (n - 1) * step, y, mode)
    }
}

/// The first `n` sampled rows of a grid, taken every `step` rows from the top, each closed by
/// `row_end`.
pub open spec fn image_rows(data: Seq<u8>, width: int, step: int, mode: ColorMode, n: nat) -> Seq<char>
    decreases n,
{
    if n == 0 {
        Seq::empty()
    } else {
        image_rows(data, width, step, mode, (n - 1) as nat)
            + image_row(data, width, (n - 1) * step, step, mode, sample_count(width, step) as nat)
            + row_end(mode)
    }
}

/// The whole text drawn for an image.
pub open spec fn image_text(grid: PixelGrid, mode: ColorMode) -> Seq<char> {
    let step = image_step(grid.height as int);
    image_rows(grid.data@, grid.width as int, step, mode, sample_count(grid.height as int, step) as nat)
}

/// `k` is below the sample count exactly when sample `k` falls inside the range.
pub proof fn lemma_sample_count(len: int, step: int, k: int)
    requires
        0 <= len,
        0 < step,
        0 <= k,
    ensures
        k < sample_count(len, step) <==> k * step < len,
        0 <= sample_count(len, step),
{
    let n = len + step - 1;
    let q = n / step;
    let m = n % step;
    assert(n == q * step + m && 0 <= m < step) by (nonlinear_arith)
        requires n >= 0, step > 0, q == n / step, m == n % step;
    if k < q {
        assert(k * step < len) by (nonlinear_arith)
            requires k < q, n == q * step + m, 0 <= m, step > 0, n == len + step - 1;
    } else {
        assert(k * step >= len) by (nonlinear_arith)
            requires k >= q, n == q * step + m, m < step, step > 0, n == len + step - 1;
    }
    assert(q >= 0) by (nonlinear_arith)
        requires n >= 0, step > 0, q == n / step;
}

/// Renders an image: samples every `image_step(height)` pixels across and down, from the top
/// left, and closes each sampled row.
pub fn draw_ascii_image(grid: &PixelGrid, mode: ColorMode) -> (text: String)
    requires
        grid.wf(),
    ensures
        text@ == image_text(*grid, mode),
{
    let width: u64 = grid.width as u64;
    let height: u64 = grid.height as u64;
    let step: u64 = if height / 200 == 0 { 2 } else { 2 * (height / 200) };
    let rows: u64 = (height + step - 1) / step;
    let cols: u64 = (width + step - 1) / step;
    let ghost data = grid.data@;
    let ghost w = width as int;
    let ghost h = height as int;
    assert(step as int == image_step(h));
    let len: usize = grid.data.len();
    let mut out = String::new();
    let mut k: u64 = 0;
    while k < rows
        invariant
            0 <= k <= rows,
            rows == sample_count(h, step as int),
            cols == sample_count(w, step as int),
            step == image_step(h),
            width == grid.width,
            height == grid.height,
            data == grid.data@,
            grid.wf(),
            w == width as int,
            h == height as int,
            len == data.len(),
            out@ == image_rows(data, w, step as int, mode, k as nat),
        decreases rows - k,
    {
        proof { lemma_sample_count(h, step as int, k as int); }
        assert(k * step <= u64::MAX) by (nonlinear_arith)
            requires k * step < h, h == height as int;
        let y: u64 = k * step;
        let ghost row_start = out@;
        let mut j: u64 = 0;
        while j < cols
            invariant
                0 <= j <= cols,
                cols == sample_count(w, step as int),
                y < height,
                y == k * step,
                0 < step,
                width == grid.width,
                height == grid.height,
                data == grid.data@,
                grid.wf(),
                w == width as int,
                h == height as int,
                len == data.len(),
                out@ == row_start + image_row(data, w, y as int, step as int, mode, j as nat),
            decreases cols - j,
        {
            proof { lemma_sample_count(w, step as int, j as int); }
            assert(j * step <= u64::MAX) by (nonlinear_arith)
                requires j * step < w, w == width as int;
            let x: u64 = j * step;
            assert(4 * (y as int * w + x as int) + 3 < data.len()) by (nonlinear_arith)
                requires
                    y < height, x < width, w == width, h == height,
                    data.len() == 4 * w * h;
            assert(y * width + x < width * height) by (nonlinear_arith)
                requires y < height, x < width;
            let i: usize = 4 * ((y * width + x) as usize);
            assert(i == 4 * (y as int * w + x as int));
            push_cell(&mut out, grid.data[i], grid.data[i + 1], grid.data[i + 2], mode);
            j = j + 1;
            assert(out@ =~= row_start + image_row(data, w, y as int, step as int, mode, j as nat));
        }
        push_row_end(&mut out, mode);
        k = k + 1;
        assert(out@ =~= image_rows(data, w, step as int, mode, k as nat));
    }
    out
}

/// Bytes per pixel in a camera frame: red, green, blue and one unused byte.
pub const PIX_BYTES: usize = 4;

/// Scale of the camera renderer: it samples every `2 * VIDEO_SCALE` rows and every
/// `VIDEO_SCALE / 2` columns.
pub const VIDEO_SCALE: u32 = 2;

/// The text for pixel `p` of a frame `width` pixels wide: its cell where its row and column
/// are sampled, followed by `row_end` where it is the last of its row.
pub open spec fn video_cell(frame: Seq<u8>, width: int, p: int, mode: ColorMode) -> Seq<char> {
    let x = p % width;
    let y = p / width;
    if y % (2 * VIDEO_SCALE as int) == 0 && x % (VIDEO_SCALE as int / 2) == 0 {
        let i = PIX_BYTES as int * p;
        cell(frame[i], frame[i + 1], frame[i + 2], mode) + if x == width - 1 {
            row_end(mode)
        } else {
            Seq::empty()
        }
    } else {
        Seq::empty()
    }
}

/// The text for the first `n` pixels of a frame, in the order they are stored.
pub open spec fn video_text(frame: Seq<u8>, width: int, mode: ColorMode, n: nat) -> Seq<char>
    decreases n,
{
    if n == 0 {
        Seq::empty()
    } else {
        video_text(frame, width, mode, (n - 1) as nat) + video_cell(frame, width, n - 1, mode)
    }
}

/// Renders a camera frame of `width`-pixel rows, four bytes per pixel.
pub fn draw_ascii_video(frame: &[u8], width: u32, mode: ColorMode) -> (text: String)
    requires
        width > 0,
        frame@.len() % (PIX_BYTES as nat) == 0,
    ensures
        text@ == video_text(frame@, width as int, mode, frame@.len() / PIX_BYTES as nat),
{
    let len: usize = frame.len();
    let w: usize = width as usize;
    let mut out = String::new();
    let mut index: usize = 0;
    while index < len
        invariant
            index % PIX_BYTES == 0,
            index <= len,
            len == frame@.len(),
            len % PIX_BYTES == 0,
            w == width as int,
            w > 0,
            out@ == video_text(frame@, w as int, mode, index as nat / PIX_BYTES as nat),
        decreases len - index,
    {
        let p: usize = index / PIX_BYTES;
        let x: usize = p % w;
        let y: usize = p / w;
        let ghost before = out@;
        if y % (2 * VIDEO_SCALE as usize) == 0 && x % (VIDEO_SCALE as usize / 2) == 0 {
            push_cell(&mut out, frame[index], frame[index + 1], frame[index + 2], mode);
            if x == w - 1 {
                push_row_end(&mut out, mode);
            }
        }
        index = index + PIX_BYTES;
        assert(index as nat / PIX_BYTES as nat == p + 1);
        assert(out@ =~= before + video_cell(frame@, w as int, p as int, mode));
    }
    out
}

} // verus!
