use vstd::prelude::*;

verus! {

/// The character that shows one pixel on a text console.
pub open spec fn pixel_char(on: bool) -> char {
    if on {
        '#'
    } else {
        '_'
    }
}

/// Row `y` of the framebuffer as a console line: one character per column,
/// then a closing `_` and a line break.
pub open spec fn console_line(display: [[bool; 32]; 64], y: int) -> Seq<char> {
    Seq::new(64, |x: int| pixel_char(display[x][y])) + seq!['_', '\n']
}

/// The console lines of the first `n` rows, top to bottom.
pub open spec fn console_lines(display: [[bool; 32]; 64], n: nat) -> Seq<char>
    decreases n,
{
    if n == 0 {
        Seq::empty()
    } else {
        console_lines(display, (n - 1) as nat) + console_line(display, n - 1)
    }
}

/// The framebuffer as text: 32 lines of 64 pixels, `#` for a lit pixel and
/// `_` for a dark one, each line closed by `_`.
pub fn console_text(display: &[[bool; 32]; 64]) -> (r: String)
    ensures
        r@ == console_lines(*display, 32),
{
    let mut text = String::new();
    let mut y: usize = 0;
    while y < 32
        invariant
            y <= 32,
            text@ == console_lines(*display, y as nat),
        decreases 32 - y,
    {
        let ghost before = text@;
        let mut x: usize = 0;
        while x < 64
            invariant
                y < 32,
                x <= 64,
                before == console_lines(*display, y as nat),
                text@ == before + Seq::new(x as nat, |c: int| pixel_char(display[c][y as int])),
            decreases 64 - x,
        {
            proof {
                reveal_strlit("#");
                reveal_strlit("_");
            }
            if display[x][y] {
                text.append("#");
            } else {
                text.append("_");
            }
            assert(text@ =~= before + Seq::new((x + 1) as nat, |c: int| pixel_char(display[c][y as int])));
            x = x + 1;
        }
        proof {
            reveal_strlit("_\n");
        }
        text.append("_\n");
        assert(text@ =~= console_lines(*display, (y + 1) as nat));
        y = y + 1;
    }
    text
}

/// A screen rectangle: left, top, width, height.
pub type Rectangle = (u32, u32, u32, u32);

/// The rectangle that the cell with row-major number `k` (row `k / 64`,
/// column `k % 64`) covers when each cell is `cell_w` by `cell_h`.
pub open spec fn cell_rect(k: int, cell_w: u32, cell_h: u32) -> Rectangle {
    (((k % 64) * cell_w) as u32, ((k / 64) * cell_h) as u32, cell_w, cell_h)
}

/// The rectangles of the lit pixels among the first `n` cells in row-major
/// order.
pub open spec fn lit_rects(display: [[bool; 32]; 64], cell_w: u32, cell_h: u32, n: nat) -> Seq<Rectangle>
    decreases n,
{
    if n == 0 {
        Seq::empty()
    } else {
        let k = n - 1;
        lit_rects(display, cell_w, cell_h, k as nat) + if display[k % 64][k / 64] {
            seq![cell_rect(k, cell_w, cell_h)]
        } else {
            Seq::empty()
        }
    }
}

/// The rectangles to fill to show the framebuffer on a `width` by `height`
/// surface: one per lit pixel, row by row, each pixel scaled to
/// `width / 64` by `height / 32`.
pub fn pixel_rects(display: &[[bool; 32]; 64], width: u32, height: u32) -> (r: Vec<Rectangle>)
    ensures
        r@ == lit_rects(*display, width / 64, height / 32, 2048),
{
    let cell_w = width / 64;
    let cell_h = height / 32;
    let mut rects: Vec<Rectangle> = Vec::new();
    let mut y: u32 = 0;
    while y < 32
        invariant
            y <= 32,
            cell_w == width / 64,
            cell_h == height / 32,
            rects@ == lit_rects(*display, cell_w, cell_h, (y * 64) as nat),
        decreases 32 - y,
    {
        let mut x: u32 = 0;
        while x < 64
            invariant
                y < 32,
                x <= 64,
                cell_w == width / 64,
                cell_h == height / 32,
                rects@ == lit_rects(*display, cell_w, cell_h, (y * 64 + x) as nat),
            decreases 64 - x,
        {
            let ghost k = y * 64 + x;
            assert(k % 64 == x && k / 64 == y) by (nonlinear_arith)
                requires
                    k == y * 64 + x,
                    x < 64,
            ;
            assert(x * cell_w <= width && y * cell_h <= height) by (nonlinear_arith)
                requires
                    x < 64,
                    y < 32,
                    cell_w == width / 64,
                    cell_h == height / 32,
            ;
            if display[x as usize][y as usize] {
                rects.push((x * cell_w, y * cell_h, cell_w, cell_h));
            }
            assert(rects@ =~= lit_rects(*display, cell_w, cell_h, (k + 1) as nat));
            x = x + 1;
        }
        y = y + 1;
    }
    rects
}

} // verus!
