//! The renderer: a model of the cells the terminal shows, kept in step with
//! the frames drawn, and the output buffer that carries each frame's changes.

use vstd::prelude::*;
use std::time::Instant;
use crate::ansi::{Rgb, ColorWrite, color_bytes, foreground_bytes, move_to_bytes, utf8_bytes, queue_move_to, queue_foreground, queue_print};

verus! {

/// The glyph that paints a whole cell in the foreground colour (U+2588).
pub const BLOCK: char = '\u{2588}';

/// The colour the terminal is assumed to show before anything was drawn.
pub open spec fn black() -> Rgb {
    (0u8, 0u8, 0u8)
}

/// A screen of `n` cells, all black.
pub open spec fn blank_screen(n: nat) -> Seq<Rgb> {
    Seq::new(n, |i: int| black())
}

/// Cells are stored column by column: cell `idx` lies in column
/// `idx / height` and row `idx % height`.
pub open spec fn cell_column(idx: nat, height: nat) -> u16 {
    (idx / height) as u16
}

/// See `cell_column`.
pub open spec fn cell_row(idx: nat, height: nat) -> u16 {
    (idx % height) as u16
}

/// How the commands that repaint one cell appear in the output buffer:
/// whether the cursor move is there (`moved`), and the colour as described
/// by `ColorWrite`.
pub struct CellWrite {
    pub moved: bool,
    pub color: ColorWrite,
}

/// The bytes of the cursor move to cell `idx`, if it was written as text.
pub open spec fn move_output(idx: nat, height: nat, moved: bool) -> Seq<u8> {
    if moved {
        move_to_bytes(cell_column(idx, height), cell_row(idx, height))
    } else {
        Seq::empty()
    }
}

/// What repainting cell `idx` with colour `c` writes: move there, set the
/// foreground colour, print a full block.
pub open spec fn cell_output(idx: nat, height: nat, c: Rgb, how: CellWrite) -> Seq<u8> {
    move_output(idx, height, how.moved) + color_bytes(c, how.color) + utf8_bytes(BLOCK)
}

/// The output for the first `n` cells when the terminal shows `prev` and the
/// frame to draw is `next`: the repaint of every cell whose colour differs,
/// in increasing cell order. `writes[i]` says how the commands of cell `i`
/// were carried out.
pub open spec fn frame_output(prev: Seq<Rgb>, next: Seq<Rgb>, height: nat, writes: Seq<CellWrite>, n: nat) -> Seq<u8>
    decreases n,
{
    if n == 0 {
        Seq::empty()
    } else {
        let i = (n - 1) as nat;
        frame_output(prev, next, height, writes, i) + if prev[i as int] != next[i as int] {
            cell_output(i, height, next[i as int], writes[i as int])
        } else {
            Seq::empty()
        }
    }
}

/// A cell repainted in full as text: cursor move, foreground colour (with
/// colour output on or off) and block.
pub open spec fn written_in_full(how: CellWrite) -> bool {
    how.moved && how.color != ColorWrite::Omitted
}

/// Drawing `frame` over `prev` ran to the end and left `screen` and
/// `output`: the screen model is the frame, and the output repaints every
/// changed cell in full, in increasing cell order.
pub open spec fn drawn(prev: Seq<Rgb>, frame: Seq<Rgb>, height: nat, screen: Seq<Rgb>, output: Seq<u8>) -> bool {
    &&& screen == frame
    &&& exists|writes: Seq<CellWrite>|
        {
            &&& writes.len() == frame.len()
            &&& forall|i: int| 0 <= i < frame.len() ==> written_in_full(#[trigger] writes[i])
            &&& output == frame_output(prev, frame, height, writes, frame.len())
        }
}

/// Drawing `frame` over `prev` stopped on an error of the console while it
/// repainted cell `k`: the cells up to `k` hold their new colour, the others
/// their old one, and the output holds the repaints of the cells before `k`,
/// followed by the cursor move to `k` if that had been written.
pub open spec fn stopped_at(
    prev: Seq<Rgb>,
    frame: Seq<Rgb>,
    height: nat,
    screen: Seq<Rgb>,
    output: Seq<u8>,
    k: nat,
) -> bool {
    &&& k < frame.len()
    &&& prev[k as int] != frame[k as int]
    &&& screen == frame.take((k + 1) as int) + prev.skip((k + 1) as int)
    &&& exists|writes: Seq<CellWrite>, moved: bool|
        writes.len() == k && output == frame_output(prev, frame, height, writes, k) + move_output(
            k,
            height,
            moved,
        )
}

/// What a caller sees of a renderer.
pub struct RendererView {
    pub width: u16,
    pub height: u16,
    /// The colour of each cell as the terminal shows it, column by column.
    pub screen: Seq<Rgb>,
    /// The bytes produced by the last frame, still to be written out.
    pub output: Seq<u8>,
    /// When the renderer was made.
    pub start: Instant,
}

/// `std::time::Instant`, carried through as an opaque value.
#[verifier::external_type_specification]
#[verifier::external_body]
pub struct ExInstant(std::time::Instant);

/// Calls `std::time::Instant::now`. What it returns depends on the clock,
/// so nothing is stated of it.
#[verifier::external_body]
fn instant_now() -> Instant {
    Instant::now()
}

/// Keeps the terminal in step with the frames drawn, writing only the cells
/// whose colour changed.
pub struct Renderer {
    prev_colors: Vec<Rgb>,
    width: u16,
    height: u16,
    buf: Vec<u8>,
    start: Instant,
}

impl View for Renderer {
    type V = RendererView;

    closed spec fn view(&self) -> RendererView {
        RendererView {
            width: self.width,
            height: self.height,
            screen: self.prev_colors@,
            output: self.buf@,
            start: self.start,
        }
    }
}

impl RendererView {
    /// The screen model holds one colour per cell.
    pub open spec fn fits(self) -> bool {
        self.screen.len() == self.width as nat * self.height as nat
    }
}

impl Renderer {
    #[verifier::type_invariant]
    spec fn screen_fits(self) -> bool {
        self.prev_colors@.len() == self.width as nat * self.height as nat
    }

    /// A renderer for a terminal of `width` by `height` cells that shows
    /// nothing but black, with an empty output buffer.
    pub fn new(width: u16, height: u16) -> (r: Self)
        ensures
            r@.fits(),
            r@.width == width,
            r@.height == height,
            r@.screen == blank_screen(width as nat * height as nat),
            r@.output == Seq::<u8>::empty(),
    {
        let prev_colors = black_cells(width, height);
        Renderer { prev_colors, width, height, buf: Vec::with_capacity(65536), start: instant_now() }
    }

    /// Adopts the size the terminal has now. When it differs from the
    /// current one, the screen model is reset to black for the new size and
    /// `true` is returned (the terminal itself has to be cleared then);
    /// otherwise nothing changes.
    pub fn resize(&mut self, width: u16, height: u16) -> (changed: bool)
        ensures
            final(self)@.fits(),
            changed == (width != old(self)@.width || height != old(self)@.height),
            final(self)@.width == width,
            final(self)@.height == height,
            changed ==> final(self)@.screen == blank_screen(width as nat * height as nat),
            !changed ==> final(self)@.screen == old(self)@.screen,
            final(self)@.output == old(self)@.output,
            final(self)@.start == old(self)@.start,
    {
        proof {
            use_type_invariant(&*self);
        }
        if width != self.width || height != self.height {
            let mut fresh = Renderer {
                prev_colors: black_cells(width, height),
                width,
                height,
                buf: Vec::new(),
                start: self.start,
            };
            std::mem::swap(&mut fresh.buf, &mut self.buf);
            *self = fresh;
            true
        } else {
            false
        }
    }

    /// Draws `frame`, the colour of every cell column by column: the output
    /// buffer is emptied, then every cell whose colour differs from what the
    /// terminal shows gets its screen model updated and is repainted in
    /// full, in increasing cell order. The commands are written as ANSI
    /// text into the buffer, which cannot fail, so the frame always runs to
    /// the end; the result keeps the form of a queueing error all the same,
    /// and what such an error would leave is `stopped_at`.
    pub fn draw(&mut self, frame: &Vec<Rgb>) -> (res: Result<(), std::io::Error>)
        requires
            frame@.len() == old(self)@.width as nat * old(self)@.height as nat,
        ensures
            final(self)@.fits(),
            final(self)@.width == old(self)@.width,
            final(self)@.height == old(self)@.height,
            final(self)@.start == old(self)@.start,
            res is Ok,
            res is Ok ==> drawn(
                old(self)@.screen,
                frame@,
                old(self)@.height as nat,
                final(self)@.screen,
                final(self)@.output,
            ),
            res is Err ==> exists|k: nat|
                #[trigger] stopped_at(
                    old(self)@.screen,
                    frame@,
                    old(self)@.height as nat,
                    final(self)@.screen,
                    final(self)@.output,
                    k,
                ),
    {
        proof {
            use_type_invariant(&*self);
        }
        // The fields are worked on outside the renderer, which meanwhile
        // holds an empty 0 by 0 screen, so that its invariant holds throughout.
        let empty: Vec<Rgb> = Vec::new();
        assert(empty@.len() == 0nat * 0nat);
        let mut taken = Renderer {
            prev_colors: empty,
            width: 0,
            height: 0,
            buf: Vec::new(),
            start: self.start,
        };
        std::mem::swap(&mut taken, self);
        let Renderer { prev_colors, width, height, buf: mut buf, start } = taken;
        let ghost shown = prev_colors@;
        buf.clear();
        let (cells, buf, res) = paint_cells(prev_colors, buf, width, height, frame);
        let ghost k = choose|k: nat| stopped_at(shown, frame@, height as nat, cells@, buf@, k);
        *self = Renderer { prev_colors: cells, width, height, buf, start };
        assert(res is Err ==> stopped_at(
            old(self)@.screen,
            frame@,
            old(self)@.height as nat,
            self@.screen,
            self@.output,
            k,
        ));
        res
    }
}

/// Repaints into `buf` every cell of a `w` by `h` screen whose colour in
/// `frame` differs from `shown`, and returns the updated screen, the buffer
/// and whether the console reported an error.
fn paint_cells(shown: Vec<Rgb>, buf: Vec<u8>, w: u16, h: u16, frame: &Vec<Rgb>) -> (out: (
    Vec<Rgb>,
    Vec<u8>,
    Result<(), std::io::Error>,
))
    requires
        shown@.len() == w as nat * h as nat,
        frame@.len() == w as nat * h as nat,
        buf@ == Seq::<u8>::empty(),
    ensures
        out.0@.len() == shown@.len(),
        out.2 is Ok,
        out.2 is Ok ==> drawn(shown@, frame@, h as nat, out.0@, out.1@),
        out.2 is Err ==> exists|k: nat| #[trigger] stopped_at(shown@, frame@, h as nat, out.0@, out.1@, k),
{
    let ghost prev = shown@;
    let mut cells = shown;
    let mut buf = buf;
    let ghost hn = h as nat;
    let ghost total = w as nat * h as nat;
    assert(total <= 0xffff * 0xffff) by (nonlinear_arith)
        requires
            total == w as nat * h as nat,
            w <= 0xffff,
            h <= 0xffff,
    ;
    let ghost mut writes: Seq<CellWrite> = Seq::empty();
    let mut idx: usize = 0;
    let mut sx: u16 = 0;
    while sx < w
        invariant
            hn == h as nat,
            total == w as nat * h as nat,
            total <= 0xffff * 0xffff,
            prev.len() == total,
            prev == shown@,
            frame@.len() == total,
            sx <= w,
            idx <= total,
            idx as nat == sx as nat * hn,
            cells@.len() == total,
            writes.len() == idx,
            forall|i: int| 0 <= i < idx ==> cells@[i] == frame@[i],
            forall|i: int| 0 <= i < idx ==> written_in_full(#[trigger] writes[i]),
            forall|i: int| idx <= i < total ==> cells@[i] == prev[i],
            buf@ == frame_output(prev, frame@, hn, writes, idx as nat),
        decreases w - sx,
    {
        proof {
            lemma_next_column(sx as nat, w as nat, hn);
        }
        let mut sy: u16 = 0;
        while sy < h
            invariant
                hn == h as nat,
                total == w as nat * h as nat,
                total <= 0xffff * 0xffff,
                prev.len() == total,
                prev == shown@,
                frame@.len() == total,
                sx < w,
                sy <= h,
                idx as nat == sx as nat * hn + sy as nat,
                (sx as nat + 1) * hn <= total,
                (sx as nat + 1) * hn == sx as nat * hn + hn,
                cells@.len() == total,
                writes.len() == idx,
                forall|i: int| 0 <= i < idx ==> cells@[i] == frame@[i],
                forall|i: int| 0 <= i < idx ==> written_in_full(#[trigger] writes[i]),
                forall|i: int| idx <= i < total ==> cells@[i] == prev[i],
                buf@ == frame_output(prev, frame@, hn, writes, idx as nat),
            decreases h - sy,
        {
            proof {
                vstd::arithmetic::div_mod::lemma_fundamental_div_mod_converse(
                    idx as int,
                    hn as int,
                    sx as int,
                    sy as int,
                );
            }
            let color = frame[idx];
            let old_color = cells[idx];
            let ghost how = CellWrite { moved: true, color: ColorWrite::Colored };
            if old_color.0 != color.0 || old_color.1 != color.1 || old_color.2 != color.2 {
                cells.set(idx, color);
                let ghost before = buf@;
                let moved = queue_move_to(&mut buf, sx, sy);
                let ghost after_move = buf@;
                proof {
                    how = CellWrite { moved: after_move != before, color: ColorWrite::Omitted };
                    assert(after_move == before + move_output(idx as nat, hn, how.moved));
                }
                if let Err(e) = moved {
                    proof {
                        lemma_stopped(prev, frame@, hn, cells@, buf@, writes, false, idx as nat);
                    }
                    let out = (cells, buf, Err(e));
                    assert(stopped_at(shown@, frame@, h as nat, out.0@, out.1@, idx as nat));
                    return out;
                }
                let colored = queue_foreground(&mut buf, color);
                if let Err(e) = colored {
                    proof {
                        lemma_stopped(prev, frame@, hn, cells@, buf@, writes, how.moved, idx as nat);
                    }
                    let out = (cells, buf, Err(e));
                    assert(stopped_at(shown@, frame@, h as nat, out.0@, out.1@, idx as nat));
                    return out;
                }
                proof {
                    let c = if buf@ == after_move + color_bytes(color, ColorWrite::Colored) {
                        ColorWrite::Colored
                    } else if buf@ == after_move + color_bytes(color, ColorWrite::Plain) {
                        ColorWrite::Plain
                    } else {
                        ColorWrite::Omitted
                    };
                    how = CellWrite { moved: how.moved, color: c };
                }
                let printed = queue_print(&mut buf, BLOCK);
                if let Err(e) = printed {
                    return (cells, buf, Err(e));
                }
                assert(buf@ =~= before + cell_output(idx as nat, hn, color, how));
            }
            proof {
                lemma_frame_output_extend(prev, frame@, hn, writes, how, idx as nat);
                writes = writes.push(how);
            }
            idx += 1;
            sy += 1;
        }
        sx += 1;
    }
    assert(cells@ =~= frame@);
    (cells, buf, Ok(()))
}

/// The state left when cell `k` fails is the one `stopped_at` describes.
proof fn lemma_stopped(
    prev: Seq<Rgb>,
    frame: Seq<Rgb>,
    height: nat,
    screen: Seq<Rgb>,
    output: Seq<u8>,
    writes: Seq<CellWrite>,
    moved: bool,
    k: nat,
)
    requires
        k < frame.len(),
        prev.len() == frame.len(),
        screen.len() == frame.len(),
        prev[k as int] != frame[k as int],
        forall|i: int| 0 <= i <= k ==> screen[i] == frame[i],
        forall|i: int| k < i < frame.len() ==> screen[i] == prev[i],
        writes.len() == k,
        output == frame_output(prev, frame, height, writes, k) + move_output(k, height, moved),
    ensures
        stopped_at(prev, frame, height, screen, output, k),
{
    assert(screen =~= frame.take((k + 1) as int) + prev.skip((k + 1) as int));
}

impl Renderer {
    /// The width of the terminal, in cells.
    pub fn width(&self) -> (w: u16)
        ensures
            w == self@.width,
    {
        self.width
    }

    /// The height of the terminal, in cells.
    pub fn height(&self) -> (h: u16)
        ensures
            h == self@.height,
    {
        self.height
    }

    /// The bytes the last frame produced, to be written to the terminal.
    pub fn output(&self) -> (bytes: &[u8])
        ensures
            bytes@ == self@.output,
    {
        self.buf.as_slice()
    }

    /// When the renderer was made; animation time counts from here.
    pub fn start(&self) -> (start: Instant)
        ensures
            start == self@.start,
    {
        self.start
    }
}

/// Cell `col * height + row` is the cell in column `col` and row `row`.
pub proof fn lemma_cell_position(col: nat, row: nat, height: nat)
    requires
        row < height,
        height <= u16::MAX,
        col <= u16::MAX,
    ensures
        cell_column(col * height + row, height) == col,
        cell_row(col * height + row, height) == row,
{
    vstd::arithmetic::div_mod::lemma_fundamental_div_mod_converse(
        (col * height + row) as int,
        height as int,
        col as int,
        row as int,
    );
}

/// The bytes that repaint the cell in column `col` and row `row` with
/// colour `c`: the cursor move to that cell, the foreground colour (with
/// colour output on or off), a full block.
pub open spec fn repaint_bytes(col: u16, row: u16, c: Rgb, colored: bool) -> Seq<u8> {
    move_to_bytes(col, row) + foreground_bytes(c, colored) + utf8_bytes(BLOCK)
}

/// Every cell whose colour changed is repainted by a frame drawn to the end:
/// somewhere in the output stands, unbroken, the move to that cell's own
/// column and row, then the foreground colour of its new colour, then a
/// full block.
pub proof fn lemma_drawn_repaints_changed_cell(
    prev: Seq<Rgb>,
    frame: Seq<Rgb>,
    height: nat,
    screen: Seq<Rgb>,
    output: Seq<u8>,
    col: u16,
    row: u16,
)
    requires
        prev.len() == frame.len(),
        drawn(prev, frame, height, screen, output),
        row < height,
        height <= u16::MAX,
        col as nat * height + row < frame.len(),
        prev[col as nat * height + row] != frame[col as nat * height + row],
    ensures
        exists|start: int, colored: bool|
            0 <= start && start + repaint_bytes(col, row, frame[col as nat * height + row], colored).len()
                <= output.len() && #[trigger] output.subrange(
                start,
                start + repaint_bytes(col, row, frame[col as nat * height + row], colored).len(),
            ) == repaint_bytes(col, row, frame[col as nat * height + row], colored),
{
    let idx: nat = col as nat * height + row as nat;
    let writes = choose|writes: Seq<CellWrite>|
        {
            &&& writes.len() == frame.len()
            &&& forall|i: int| 0 <= i < frame.len() ==> written_in_full(#[trigger] writes[i])
            &&& output == frame_output(prev, frame, height, writes, frame.len())
        };
    lemma_cell_position(col as nat, row as nat, height);
    assert(written_in_full(writes[idx as int]));
    let colored = writes[idx as int].color == ColorWrite::Colored;
    let seg = repaint_bytes(col, row, frame[idx as int], colored);
    let before = frame_output(prev, frame, height, writes, idx);
    assert(cell_output(idx, height, frame[idx as int], writes[idx as int]) == seg);
    assert(frame_output(prev, frame, height, writes, idx + 1) == before + seg);
    lemma_frame_output_prefix(prev, frame, height, writes, idx + 1, frame.len());
    let start = before.len() as int;
    let upto = before + seg;
    assert(output.subrange(0, upto.len() as int) == upto);
    assert forall|j: int| 0 <= j < seg.len() implies output[start + j] == seg[j] by {
        assert(output.subrange(0, upto.len() as int)[start + j] == upto[start + j]);
    }
    assert(output.subrange(start, start + seg.len()) =~= seg);
}

/// The output for the first `m` cells begins the output for the first `n`.
proof fn lemma_frame_output_prefix(
    prev: Seq<Rgb>,
    next: Seq<Rgb>,
    height: nat,
    writes: Seq<CellWrite>,
    m: nat,
    n: nat,
)
    requires
        m <= n,
    ensures
        frame_output(prev, next, height, writes, m).len() <= frame_output(prev, next, height, writes, n).len(),
        frame_output(prev, next, height, writes, n).subrange(
            0,
            frame_output(prev, next, height, writes, m).len() as int,
        ) == frame_output(prev, next, height, writes, m),
    decreases n,
{
    if m < n {
        lemma_frame_output_prefix(prev, next, height, writes, m, (n - 1) as nat);
        let a = frame_output(prev, next, height, writes, m);
        let b = frame_output(prev, next, height, writes, (n - 1) as nat);
        let c = frame_output(prev, next, height, writes, n);
        assert(c.subrange(0, a.len() as int) =~= b.subrange(0, a.len() as int));
    } else {
        let c = frame_output(prev, next, height, writes, n);
        assert(c.subrange(0, c.len() as int) =~= c);
    }
}

/// A frame that was drawn to the end wrote nothing at all exactly when no
/// cell changed colour.
pub proof fn lemma_output_empty_iff_unchanged(
    prev: Seq<Rgb>,
    frame: Seq<Rgb>,
    height: nat,
    screen: Seq<Rgb>,
    output: Seq<u8>,
)
    requires
        prev.len() == frame.len(),
        drawn(prev, frame, height, screen, output),
    ensures
        (output.len() == 0) <==> (prev == frame),
{
    let writes = choose|writes: Seq<CellWrite>|
        writes.len() == frame.len() && output == frame_output(prev, frame, height, writes, frame.len());
    lemma_output_empty_iff_prefix_unchanged(prev, frame, height, writes, frame.len());
    if prev =~= frame {
    }
}

/// Drawing, to the end, the frame the terminal already shows writes
/// nothing; in particular a frame drawn twice writes nothing the second
/// time.
pub proof fn lemma_redraw_writes_nothing(frame: Seq<Rgb>, height: nat, screen: Seq<Rgb>, output: Seq<u8>)
    requires
        drawn(frame, frame, height, screen, output),
    ensures
        output == Seq::<u8>::empty(),
{
    lemma_output_empty_iff_unchanged(frame, frame, height, screen, output);
}

proof fn lemma_output_empty_iff_prefix_unchanged(
    prev: Seq<Rgb>,
    next: Seq<Rgb>,
    height: nat,
    writes: Seq<CellWrite>,
    n: nat,
)
    requires
        n <= prev.len(),
        n <= next.len(),
    ensures
        (frame_output(prev, next, height, writes, n).len() == 0) <==> (forall|i: int|
            0 <= i < n ==> prev[i] == next[i]),
    decreases n,
{
    if n > 0 {
        let i = (n - 1) as nat;
        lemma_output_empty_iff_prefix_unchanged(prev, next, height, writes, i);
        if prev[i as int] != next[i as int] {
            assert(cell_output(i, height, next[i as int], writes[i as int]).len() > 0);
        }
    }
}

/// After column `sx` of a screen `w` columns wide, the next column still
/// fits: `(sx + 1) * h <= w * h`.
proof fn lemma_next_column(sx: nat, w: nat, h: nat)
    requires
        sx < w,
    ensures
        (sx + 1) * h <= w * h,
        (sx + 1) * h == sx * h + h,
{
    assert((sx + 1) * h <= w * h) by (nonlinear_arith)
        requires
            sx < w,
    ;
    assert((sx + 1) * h == sx * h + h) by (nonlinear_arith);
}

/// The output for one cell more is the output so far followed by that
/// cell's repaint, if it changed; how that cell was written does not touch
/// the cells before.
proof fn lemma_frame_output_extend(
    prev: Seq<Rgb>,
    next: Seq<Rgb>,
    height: nat,
    writes: Seq<CellWrite>,
    how: CellWrite,
    n: nat,
)
    requires
        writes.len() == n,
    ensures
        frame_output(prev, next, height, writes.push(how), n + 1) == frame_output(
            prev,
            next,
            height,
            writes,
            n,
        ) + if prev[n as int] != next[n as int] {
            cell_output(n, height, next[n as int], how)
        } else {
            Seq::empty()
        },
{
    lemma_frame_output_agree(prev, next, height, writes, writes.push(how), n);
}

/// The output for the first `n` cells depends only on how those `n` cells
/// were written.
proof fn lemma_frame_output_agree(
    prev: Seq<Rgb>,
    next: Seq<Rgb>,
    height: nat,
    a: Seq<CellWrite>,
    b: Seq<CellWrite>,
    n: nat,
)
    requires
        a.len() >= n,
        b.len() >= n,
        forall|i: int| 0 <= i < n ==> a[i] == b[i],
    ensures
        frame_output(prev, next, height, a, n) == frame_output(prev, next, height, b, n),
    decreases n,
{
    if n > 0 {
        lemma_frame_output_agree(prev, next, height, a, b, (n - 1) as nat);
    }
}

/// `width * height` black cells.
fn black_cells(width: u16, height: u16) -> (v: Vec<Rgb>)
    ensures
        v@ == blank_screen(width as nat * height as nat),
{
    let n: usize = cell_count(width, height);
    let mut v: Vec<Rgb> = Vec::with_capacity(n);
    let mut i: usize = 0;
    while i < n
        invariant
            i <= n,
            n == width as nat * height as nat,
            v@ == blank_screen(i as nat),
        decreases n - i,
    {
        v.push((0, 0, 0));
        i += 1;
        assert(v@ =~= blank_screen(i as nat));
    }
    v
}

/// `width * height`, which always fits in a `usize` of 32 bits or more.
fn cell_count(width: u16, height: u16) -> (n: usize)
    ensures
        n == width as nat * height as nat,
{
    assert(width as nat * height as nat <= 0xffff * 0xffff) by (nonlinear_arith)
        requires
            width <= 0xffff,
            height <= 0xffff,
    ;
    width as usize * height as usize
}

} // verus!
