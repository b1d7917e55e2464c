//! Bitmap-font text: where each character's glyph lies in the font atlas,
//! and where each character of a text is placed.
use vstd::prelude::*;

verus! {

/// Width of one glyph cell of the font atlas, in pixels.
pub const GLYPH_WIDTH: u32 = 6;

/// Height of one glyph cell of the font atlas, in pixels.
pub const GLYPH_HEIGHT: u32 = 10;

/// Width of the font atlas, in pixels.
pub const ATLAS_WIDTH: u32 = 78;

/// Height of the font atlas, in pixels.
pub const ATLAS_HEIGHT: u32 = 70;

/// The characters of the atlas, in the order of their cells (row by row).
pub const CHARACTERS: &'static str = "ABCDEFGHIJKLMNOPQRSTUVWXYZabcdefghijklmnopqrstuvwxyz0123456789+-=()[]{}<>/*:#%!?.,'\"@&$ ";

/// `i` is the first position of `c` in `s`.
pub open spec fn first_position(s: Seq<char>, c: char, i: int) -> bool {
    &&& 0 <= i < s.len()
    &&& s[i] == c
    &&& forall|j: int| 0 <= j < i ==> s[j] != c
}

/// The atlas cell of `c`: the first position of `c` among the atlas
/// characters, or of `'?'` when `c` is not among them.
pub open spec fn atlas_cell(c: char) -> int {
    let target = if CHARACTERS@.contains(c) {
        c
    } else {
        '?'
    };
    choose|i: int| first_position(CHARACTERS@, target, i)
}

/// A character has at most one first position.
pub proof fn lemma_first_position_unique(s: Seq<char>, c: char, i: int, k: int)
    requires
        first_position(s, c, i),
        first_position(s, c, k),
    ensures
        i == k,
{
    if i < k {
        assert(s[i] != c);
    } else if k < i {
        assert(s[k] != c);
    }
}

/// The position of the first occurrence of `c` in `s` at or after `from`,
/// searching one character at a time.
fn find_from(s: &str, c: char, from: usize) -> (r: Option<usize>)
    requires
        from <= s@.len(),
    ensures
        match r {
            Some(i) => from <= i < s@.len() && s@[i as int] == c && forall|j: int| from <= j < i ==> s@[j] != c,
            None => forall|j: int| from <= j < s@.len() ==> s@[j] != c,
        },
{
    let n = s.unicode_len();
    let mut i = from;
    while i < n
        invariant
            n == s@.len(),
            from <= i <= n,
            forall|j: int| from <= j < i ==> s@[j] != c,
        decreases n - i,
    {
        if s.get_char(i) == c {
            return Some(i);
        }
        i = i + 1;
    }
    None
}

/// The atlas cell of character `c`: its first position in the atlas, or
/// that of `'?'` for a character the atlas lacks.
pub fn glyph_cell_index(c: char) -> (i: usize)
    ensures
        CHARACTERS@.contains(c) ==> first_position(CHARACTERS@, c, i as int),
        !CHARACTERS@.contains(c) ==> first_position(CHARACTERS@, '?', i as int),
        i == atlas_cell(c),
        i < 88,
{
    proof {
        reveal_strlit("ABCDEFGHIJKLMNOPQRSTUVWXYZabcdefghijklmnopqrstuvwxyz0123456789+-=()[]{}<>/*:#%!?.,'\"@&$ ");
    }
    assert(CHARACTERS@.len() == 88);
    match find_from(CHARACTERS, c, 0) {
        Some(i) => {
            proof {
                assert(CHARACTERS@.contains(c));
                assert(first_position(CHARACTERS@, c, i as int));
                let k = choose|k: int| first_position(CHARACTERS@, c, k);
                lemma_first_position_unique(CHARACTERS@, c, i as int, k);
            }
            i
        },
        None => {
            assert(CHARACTERS@[79] == '?');
            assert(!CHARACTERS@.contains(c));
            match find_from(CHARACTERS, '?', 0) {
                Some(i) => {
                    proof {
                        assert(first_position(CHARACTERS@, '?', i as int));
                        let k = choose|k: int| first_position(CHARACTERS@, '?', k);
                        lemma_first_position_unique(CHARACTERS@, '?', i as int, k);
                    }
                    i
                },
                None => {
                    assert(false);
                    0
                },
            }
        },
    }
}

/// The number of glyph cells in one row of the atlas.
pub open spec fn atlas_columns() -> int {
    (ATLAS_WIDTH / GLYPH_WIDTH) as int
}

/// The top left pixel, in the atlas, of the glyph of character `c`.
pub fn glyph_origin(c: char) -> (origin: (u32, u32))
    ensures
        origin.0 == (atlas_cell(c) % atlas_columns()) * GLYPH_WIDTH,
        origin.1 == (atlas_cell(c) / atlas_columns()) * GLYPH_HEIGHT,
        origin.0 + GLYPH_WIDTH <= ATLAS_WIDTH,
        origin.1 + GLYPH_HEIGHT <= ATLAS_HEIGHT,
{
    // find index of the glyph
    let glyph_index = glyph_cell_index(c) as u32;

    let columns = ATLAS_WIDTH / GLYPH_WIDTH;

    let column = glyph_index % columns;
    let row = glyph_index / columns;

    let x = column * GLYPH_WIDTH;
    let y = row * GLYPH_HEIGHT;
    (x, y)
}

/// The number of line breaks among the first `i` characters of `s`.
pub open spec fn lines_before(s: Seq<char>, i: int) -> int
    decreases i,
{
    if i <= 0 {
        0
    } else {
        lines_before(s, i - 1) + if s[i - 1] == '\n' {
            1int
        } else {
            0int
        }
    }
}

/// The position where the line holding character `i` of `s` starts.
pub open spec fn line_start(s: Seq<char>, i: int) -> int
    decreases i,
{
    if i <= 0 {
        0
    } else if s[i - 1] == '\n' {
        i
    } else {
        line_start(s, i - 1)
    }
}

/// Where character `i` of `s` is placed: its column within its line and its
/// line number; a line break is not placed.
pub open spec fn placement(s: Seq<char>, i: int) -> Option<(usize, usize)> {
    if s[i] == '\n' {
        None
    } else {
        Some(((i - line_start(s, i)) as usize, lines_before(s, i) as usize))
    }
}

/// The line start and line count stay within the prefix they describe.
proof fn lemma_line_bounds(s: Seq<char>, i: int)
    requires
        0 <= i,
    ensures
        0 <= line_start(s, i) <= i,
        0 <= lines_before(s, i) <= i,
    decreases i,
{
    if i > 0 {
        lemma_line_bounds(s, i - 1);
    }
}

/// Lays out a text in glyph cells: every character other than a line break
/// gets its column (counted from the start of its line) and its line number;
/// a line break gets no cell and starts a new line.
pub fn layout_text(text: &Vec<char>) -> (cells: Vec<Option<(usize, usize)>>)
    ensures
        cells@.len() == text@.len(),
        forall|i: int| 0 <= i < text@.len() ==> #[trigger] cells@[i] == placement(text@, i),
{
    let mut cells: Vec<Option<(usize, usize)>> = Vec::new();
    let mut previous_line_length: usize = 0;
    let mut current_row: usize = 0;
    let n = text.len();
    let mut i: usize = 0;
    while i < n
        invariant
            n == text@.len(),
            i <= n,
            cells@.len() == i,
            previous_line_length == line_start(text@, i as int),
            current_row == lines_before(text@, i as int),
            forall|j: int| 0 <= j < i ==> #[trigger] cells@[j] == placement(text@, j),
        decreases n - i,
    {
        proof {
            lemma_line_bounds(text@, i as int);
        }
        let character = text[i];
        if character == '\n' {
            current_row = current_row + 1;
            previous_line_length = i + 1;
            cells.push(None);
        } else {
            cells.push(Some((i - previous_line_length, current_row)));
        }
        i = i + 1;
    }
    cells
}

} // verus!
