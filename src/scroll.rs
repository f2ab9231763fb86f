//! Windowing a rendered text onto a viewport of a given height.
use vstd::prelude::*;

verus! {

/// The lines `[first, end)` of a rendered text that a viewport shows.
#[derive(Clone, Copy, Debug, PartialEq, Eq, Structural)]
pub struct Window {
    pub first: usize,
    pub end: usize,
}

/// The largest offset at which a text of `lines` lines still fills a viewport of
/// `height` rows, or 0 where it fits whole.
pub open spec fn max_offset(lines: int, height: int) -> int {
    if lines > height {
        lines - height
    } else {
        0
    }
}

/// An offset clamped down so that the viewport stays on the text; never moved up.
pub open spec fn clamped_offset(offset: int, lines: int, height: int) -> int {
    if offset > max_offset(lines, height) {
        max_offset(lines, height)
    } else {
        offset
    }
}

/// The window that a viewport of `height > 0` rows shows at offset `offset`.
pub open spec fn window_at(offset: int, lines: int, height: int) -> (int, int) {
    let first = clamped_offset(offset, lines, height);
    (first, if first + height < lines { first + height } else { lines })
}

/// Clamps `offset` for a text of `lines` lines and a viewport of `height` rows and
/// gives the window shown there; `None` for a viewport without rows, which shows
/// nothing.
pub fn visible_window(offset: usize, lines: usize, height: usize) -> (r: Option<Window>)
    ensures
        height == 0 <==> r is None,
        r matches Some(w) ==> (w.first as int, w.end as int) == window_at(
            offset as int,
            lines as int,
            height as int,
        ),
{
    if height == 0 {
        return None;
    }
    let max = if lines > height { lines - height } else { 0 };
    let first = if offset > max { max } else { offset };
    let end = if lines - first > height { first + height } else { lines };
    Some(Window { first, end })
}

/// A viewport with rows shows at least one line of any text that has one.
pub proof fn lemma_window_not_empty(offset: int, lines: int, height: int)
    requires
        0 <= offset,
        lines > 0,
        height > 0,
    ensures
        0 <= window_at(offset, lines, height).0 < window_at(offset, lines, height).1 <= lines,
        window_at(offset, lines, height).1 - window_at(offset, lines, height).0 <= height,
{
}

/// The offset after a scroll by `step` lines: moved by `step`, kept between 0 and the
/// largest `usize`.
pub open spec fn scrolled(offset: int, step: int) -> int {
    if offset + step < 0 {
        0
    } else if offset + step > usize::MAX {
        usize::MAX as int
    } else {
        offset + step
    }
}

/// Moves an offset by `step` lines, saturating at both ends.
pub fn scroll_by(offset: usize, step: isize) -> (r: usize)
    ensures
        r == scrolled(offset as int, step as int),
{
    if step >= 0 {
        let up = step as usize;
        if offset > usize::MAX - up {
            usize::MAX
        } else {
            offset + up
        }
    } else {
        let down = ((-(step + 1)) as usize) + 1;
        if offset < down {
            0
        } else {
            offset - down
        }
    }
}

} // verus!
