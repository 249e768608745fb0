//! Proofs of the driver's general laws, stated over the writer's
//! mathematical model from [`crate::writer`].

use vstd::prelude::*;

use crate::color::ColorCode;
use crate::writer::BUFFER_CELLS;
use crate::writer::BUFFER_HEIGHT;
use crate::writer::BUFFER_WIDTH;
use crate::writer::NEWLINE_BYTE;
use crate::writer::SENTINEL_GLYPH;
use crate::writer::ScreenChar;
use crate::writer::WriterView;
use crate::writer::blank_row;
use crate::writer::cell_index;
use crate::writer::glyph_cell;
use crate::writer::is_printable;
use crate::writer::lemma_run_preserves_wf;
use crate::writer::run;
use crate::writer::run_scrolls;
use crate::writer::sanitize_byte;
use crate::writer::scrolled;
use crate::writer::step;
use crate::writer::step_scrolls;

verus! {

/// Writing a single byte is one sanitize-and-step.
proof fn lemma_run_one(v: WriterView, b: u8)
    ensures
        run(v, seq![b]) == step(v, sanitize_byte(b)),
        run_scrolls(v, seq![b]) == step_scrolls(v, sanitize_byte(b)),
{
    let s = seq![b];
    let e = s.drop_last();
    assert(e.len() == 0);
    assert(run(v, e) == v);
    assert(run_scrolls(v, e) == 0);
    assert(s.last() == b);
    assert(run(v, s) == step(run(v, e), sanitize_byte(s.last())));
    assert(run_scrolls(v, s) == run_scrolls(v, e) + step_scrolls(run(v, e), sanitize_byte(s.last())));
}

/// Newline behavior: writing a newline never writes a glyph cell. The
/// grid becomes exactly the old grid scrolled once, the column resets
/// to 0, and exactly one scroll happens.
pub proof fn lemma_newline_behavior(v: WriterView)
    ensures
        run(v, seq![NEWLINE_BYTE]).cells == scrolled(v.cells, v.attr),
        run(v, seq![NEWLINE_BYTE]).col == 0,
        run(v, seq![NEWLINE_BYTE]).attr == v.attr,
        run_scrolls(v, seq![NEWLINE_BYTE]) == 1,
{
    lemma_run_one(v, NEWLINE_BYTE);
}

/// Printable pass-through: writing one printable byte puts exactly that
/// byte, under the active attribute, into the cell the cursor
/// addressed. Short of the right edge the cursor advances one column;
/// at the right edge the freshly written row scrolls up one place and
/// the cursor returns to column 0.
pub proof fn lemma_printable_passthrough(v: WriterView, b: u8)
    requires
        v.wf(),
        is_printable(b),
    ensures
        run(v, seq![b]).attr == v.attr,
        v.col + 1 < BUFFER_WIDTH ==> run(v, seq![b]).cells[cell_index(BUFFER_HEIGHT - 1, v.col)]
            == glyph_cell(b, v.attr) && run(v, seq![b]).col == v.col + 1,
        v.col + 1 == BUFFER_WIDTH ==> run(v, seq![b]).cells[cell_index(BUFFER_HEIGHT - 2, v.col)]
            == glyph_cell(b, v.attr) && run(v, seq![b]).col == 0,
{
    lemma_run_one(v, b);
    assert(sanitize_byte(b) == b);
    if v.col + 1 == BUFFER_WIDTH {
        let written = v.cells.update(cell_index(BUFFER_HEIGHT - 1, v.col), glyph_cell(b, v.attr));
        assert(cell_index(BUFFER_HEIGHT - 2, v.col) + BUFFER_WIDTH == cell_index(
            BUFFER_HEIGHT - 1,
            v.col,
        ));
        assert(scrolled(written, v.attr)[cell_index(BUFFER_HEIGHT - 2, v.col)] == written[cell_index(
            BUFFER_HEIGHT - 1,
            v.col,
        )]);
    }
}

/// Sanitization: writing one byte that is neither printable nor a
/// newline puts the sentinel glyph, not the original byte, into the
/// cell the cursor addressed, with the same cursor movement as any
/// other glyph write.
pub proof fn lemma_sanitization(v: WriterView, b: u8)
    requires
        v.wf(),
        !is_printable(b),
        b != NEWLINE_BYTE,
    ensures
        run(v, seq![b]).attr == v.attr,
        v.col + 1 < BUFFER_WIDTH ==> run(v, seq![b]).cells[cell_index(BUFFER_HEIGHT - 1, v.col)]
            == glyph_cell(SENTINEL_GLYPH, v.attr) && run(v, seq![b]).col == v.col + 1,
        v.col + 1 == BUFFER_WIDTH ==> run(v, seq![b]).cells[cell_index(BUFFER_HEIGHT - 2, v.col)]
            == glyph_cell(SENTINEL_GLYPH, v.attr) && run(v, seq![b]).col == 0,
{
    lemma_run_one(v, b);
    assert(sanitize_byte(b) == SENTINEL_GLYPH);
    if v.col + 1 == BUFFER_WIDTH {
        let written = v.cells.update(
            cell_index(BUFFER_HEIGHT - 1, v.col),
            glyph_cell(SENTINEL_GLYPH, v.attr),
        );
        assert(cell_index(BUFFER_HEIGHT - 2, v.col) + BUFFER_WIDTH == cell_index(
            BUFFER_HEIGHT - 1,
            v.col,
        ));
        assert(scrolled(written, v.attr)[cell_index(BUFFER_HEIGHT - 2, v.col)] == written[cell_index(
            BUFFER_HEIGHT - 1,
            v.col,
        )]);
    }
}

/// Scroll correctness: after a scroll, every cell of row r - 1 holds
/// what row r held before, for every row r from 1 to the last; and the
/// bottom row is one full row of blank cells carrying the active
/// attribute.
pub proof fn lemma_scroll_correctness(cells: Seq<ScreenChar>, attr: ColorCode)
    requires
        cells.len() == BUFFER_CELLS,
    ensures
        forall|r: int, c: int|
            1 <= r < BUFFER_HEIGHT && 0 <= c < BUFFER_WIDTH ==> scrolled(cells, attr)[cell_index(
                r - 1,
                c,
            )] == #[trigger] cells[cell_index(r, c)],
        scrolled(cells, attr).subrange(
            BUFFER_CELLS - BUFFER_WIDTH,
            BUFFER_CELLS as int,
        ) == blank_row(attr),
{
    assert forall|r: int, c: int|
        1 <= r < BUFFER_HEIGHT && 0 <= c < BUFFER_WIDTH implies scrolled(cells, attr)[cell_index(
        r - 1,
        c,
    )] == #[trigger] cells[cell_index(r, c)] by {
        assert(0 <= cell_index(r - 1, c) < BUFFER_CELLS - BUFFER_WIDTH);
        assert(cell_index(r - 1, c) + BUFFER_WIDTH == cell_index(r, c));
    }
    assert(scrolled(cells, attr).subrange(BUFFER_CELLS - BUFFER_WIDTH, BUFFER_CELLS as int)
        =~= blank_row(attr));
}

/// Writing non-newline bytes that all fit in the rest of the current
/// row advances the cursor one column per byte, stamps the sanitized
/// glyph of each byte into consecutive cells of the bottom row, never
/// scrolls, and leaves every other cell of the grid unchanged.
pub proof fn lemma_write_within_row(v: WriterView, s: Seq<u8>)
    requires
        v.wf(),
        forall|i: int| 0 <= i < s.len() ==> #[trigger] s[i] != NEWLINE_BYTE,
        v.col + s.len() < BUFFER_WIDTH,
    ensures
        run(v, s).wf(),
        run(v, s).attr == v.attr,
        run(v, s).col == v.col + s.len(),
        run_scrolls(v, s) == 0,
        run(v, s).cells.subrange(
            cell_index(BUFFER_HEIGHT - 1, v.col),
            cell_index(BUFFER_HEIGHT - 1, v.col + s.len()),
        ) == s.map(|j: int, b: u8| glyph_cell(sanitize_byte(b), v.attr)),
        forall|i: int|
            0 <= i < BUFFER_CELLS && !(cell_index(BUFFER_HEIGHT - 1, v.col) <= i < cell_index(
                BUFFER_HEIGHT - 1,
                v.col + s.len(),
            )) ==> run(v, s).cells[i] == #[trigger] v.cells[i],
    decreases s.len(),
{
    let a = cell_index(BUFFER_HEIGHT - 1, v.col);
    let glyphs = s.map(|j: int, b: u8| glyph_cell(sanitize_byte(b), v.attr));
    if s.len() == 0 {
        assert(run(v, s).cells.subrange(a, a) =~= glyphs);
    } else {
        let front = s.drop_last();
        assert forall|i: int| 0 <= i < front.len() implies #[trigger] front[i] != NEWLINE_BYTE by {
            assert(front[i] == s[i]);
        }
        lemma_write_within_row(v, front);
        let w = run(v, front);
        let b = sanitize_byte(s.last());
        assert(b != NEWLINE_BYTE);
        assert(run(v, s) == step(w, b));
        let written = cell_index(BUFFER_HEIGHT - 1, w.col);
        assert(run(v, s).cells == w.cells.update(written, glyph_cell(b, v.attr)));
        let front_glyphs = front.map(|j: int, b: u8| glyph_cell(sanitize_byte(b), v.attr));
        assert forall|j: int| 0 <= j < s.len() implies run(v, s).cells[a + j] == glyphs[j] by {
            if j < s.len() - 1 {
                assert(w.cells[a + j] == w.cells.subrange(a, a + front.len())[j]);
                assert(w.cells[a + j] == front_glyphs[j]);
                assert(front[j] == s[j]);
            }
        }
        assert(run(v, s).cells.subrange(a, a + s.len()) =~= glyphs);
        assert forall|i: int|
            0 <= i < BUFFER_CELLS && !(a <= i < cell_index(BUFFER_HEIGHT - 1, v.col + s.len()))
            implies run(v, s).cells[i] == #[trigger] v.cells[i] by {
            assert(i != written);
            assert(run(v, s).cells[i] == w.cells[i]);
        }
    }
}

/// Multi-byte input: every byte of a multi-byte encoded character is
/// neither printable nor a newline, so a character of n such bytes that
/// fit in the rest of the row becomes exactly n consecutive
/// sentinel-glyph cells on the bottom row, consuming n columns.
pub proof fn lemma_multibyte_sentinels(v: WriterView, s: Seq<u8>)
    requires
        v.wf(),
        forall|i: int| 0 <= i < s.len() ==> !is_printable(#[trigger] s[i]) && s[i] != NEWLINE_BYTE,
        v.col + s.len() < BUFFER_WIDTH,
    ensures
        run(v, s).col == v.col + s.len(),
        run_scrolls(v, s) == 0,
        run(v, s).cells.subrange(
            cell_index(BUFFER_HEIGHT - 1, v.col),
            cell_index(BUFFER_HEIGHT - 1, v.col + s.len()),
        ) == Seq::new(s.len(), |j: int| glyph_cell(SENTINEL_GLYPH, v.attr)),
{
    lemma_write_within_row(v, s);
    let glyphs = s.map(|j: int, b: u8| glyph_cell(sanitize_byte(b), v.attr));
    assert forall|j: int| 0 <= j < s.len() implies glyphs[j] == glyph_cell(
        SENTINEL_GLYPH,
        v.attr,
    ) by {
        assert(sanitize_byte(s[j]) == SENTINEL_GLYPH);
    }
    assert(glyphs =~= Seq::new(s.len(), |j: int| glyph_cell(SENTINEL_GLYPH, v.attr)));
}

/// Wrap-around: writing exactly one full row of printable bytes with no
/// newline, starting at column 0, scrolls exactly once and leaves the
/// cursor back at column 0; the next printable byte then lands at
/// column 0 of the bottom row.
pub proof fn lemma_wrap_around(v: WriterView, s: Seq<u8>, b: u8)
    requires
        v.wf(),
        v.col == 0,
        s.len() == BUFFER_WIDTH,
        forall|i: int| 0 <= i < s.len() ==> is_printable(#[trigger] s[i]),
        is_printable(b),
    ensures
        run_scrolls(v, s) == 1,
        run(v, s).col == 0,
        run(v, s.push(b)).cells[cell_index(BUFFER_HEIGHT - 1, 0)] == glyph_cell(b, v.attr),
        run(v, s.push(b)).col == 1,
{
    let front = s.drop_last();
    assert forall|i: int| 0 <= i < front.len() implies #[trigger] front[i] != NEWLINE_BYTE by {
        assert(front[i] == s[i]);
        assert(is_printable(s[i]));
    }
    lemma_write_within_row(v, front);
    let w = run(v, front);
    assert(w.col == BUFFER_WIDTH - 1);
    assert(sanitize_byte(s.last()) == s.last());
    assert(s.last() != NEWLINE_BYTE);
    assert(run(v, s) == step(w, s.last()));
    assert(run(v, s).col == 0);
    assert(run_scrolls(v, s) == run_scrolls(v, front) + step_scrolls(w, s.last()));
    assert(step_scrolls(w, s.last()) == 1);
    lemma_run_preserves_wf(v, s);
    assert(s.push(b).drop_last() =~= s);
    assert(s.push(b).last() == b);
    assert(sanitize_byte(b) == b);
    assert(run(v, s.push(b)) == step(run(v, s), b));
    assert(run(v, s.push(b)).cells[cell_index(BUFFER_HEIGHT - 1, 0)] == glyph_cell(b, v.attr));
}

} // verus!
