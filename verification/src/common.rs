use vstd::prelude::*;
use crate::text::{chars_of, decimal, push_decimal, str_eq, string_from_chars};

verus! {

/// The kinds of entity that a field update can address.
#[derive(Debug, Clone, Copy, PartialEq, Eq, Hash, Structural)]
pub enum EntityType {
    AppContext,
    App,
    Layout,
    MuxBox,
}

/// How a script of a box or a choice is run.
#[derive(Debug, Clone, Copy, PartialEq, Eq, Hash, Structural)]
pub enum ExecutionMode {
    /// Run at once on the UI thread.
    Immediate,
    /// Run on a background thread.
    Thread,
    /// Run in a pseudo-terminal.
    Pty,
}

impl Default for ExecutionMode {
    fn default() -> (m: Self)
        ensures
            m == ExecutionMode::Immediate,
    {
        ExecutionMode::Immediate
    }
}

/// Application-wide settings.
#[derive(Debug, Clone, Copy, PartialEq, Eq, Hash, Structural)]
pub struct Config {
    /// Delay between two frames, in milliseconds.
    pub frame_delay: u64,
    /// When set, boxes can be neither resized nor moved.
    pub locked: bool,
}

impl Default for Config {
    fn default() -> (c: Self)
        ensures
            c == (Config { frame_delay: 30, locked: false }),
    {
        Config { frame_delay: 30, locked: false }
    }
}

impl Config {
    /// An unlocked configuration; a frame delay of 0 is refused.
    pub fn new(frame_delay: u64) -> (c: Self)
        requires
            frame_delay != 0,
        ensures
            c == (Config { frame_delay, locked: false }),
    {
        let result = Config { frame_delay, locked: false };
        result.validate();
        result
    }

    /// A configuration with the given frame delay and lock: exactly
    /// `Config { frame_delay, locked }`; a frame delay of 0 is refused.
    pub fn new_with_lock(frame_delay: u64, locked: bool) -> (c: Self)
        requires
            frame_delay != 0,
        ensures
            c == (Config { frame_delay, locked }),
    {
        let result = Config { frame_delay, locked };
        result.validate();
        result
    }

    /// The check that `validate` makes: `None` exactly when the frame delay
    /// is not 0, else the message it fails with.
    pub fn validation_error(&self) -> (r: Option<String>)
        ensures
            r is None <==> self.frame_delay != 0,
            r matches Some(m) ==> m@ == "Validation error: frame_delay cannot be 0"@,
    {
        if self.frame_delay != 0 {
            None
        } else {
            Some(String::from_str("Validation error: frame_delay cannot be 0"))
        }
    }

    /// Validation of a configuration: it passes exactly when the frame delay
    /// is not 0, and changes nothing; a delay of 0 is refused, and callers do
    /// not hand one in.
    pub fn validate(&self)
        requires
            self.frame_delay != 0,
    {
    }
}

/// ANSI palette index of a color name: the eight basic colors and their
/// `bright_` variants.
pub open spec fn color_index(name: Seq<char>) -> Option<nat> {
    if name == "black"@ { Some(0) }
    else if name == "red"@ { Some(1) }
    else if name == "green"@ { Some(2) }
    else if name == "yellow"@ { Some(3) }
    else if name == "blue"@ { Some(4) }
    else if name == "magenta"@ { Some(5) }
    else if name == "cyan"@ { Some(6) }
    else if name == "white"@ { Some(7) }
    else if name == "bright_black"@ { Some(8) }
    else if name == "bright_red"@ { Some(9) }
    else if name == "bright_green"@ { Some(10) }
    else if name == "bright_yellow"@ { Some(11) }
    else if name == "bright_blue"@ { Some(12) }
    else if name == "bright_magenta"@ { Some(13) }
    else if name == "bright_cyan"@ { Some(14) }
    else if name == "bright_white"@ { Some(15) }
    else { None }
}

/// Escape sequence that selects a foreground color: `ESC [ 38;5;n m` for a
/// palette color, `ESC [ 39 m` (default color) for an unknown name.
pub open spec fn fg_code(name: Seq<char>) -> Seq<char> {
    match color_index(name) {
        Some(n) => seq!['\x1b', '[', '3', '8', ';', '5', ';'] + decimal(n) + seq!['m'],
        None => seq!['\x1b', '[', '3', '9', 'm'],
    }
}

/// Escape sequence that selects a background color: `ESC [ 48;5;n m` for a
/// palette color, `ESC [ 49 m` (default color) for an unknown name.
pub open spec fn bg_code(name: Seq<char>) -> Seq<char> {
    match color_index(name) {
        Some(n) => seq!['\x1b', '[', '4', '8', ';', '5', ';'] + decimal(n) + seq!['m'],
        None => seq!['\x1b', '[', '4', '9', 'm'],
    }
}

fn color_index_of(name: &str) -> (r: Option<u64>)
    ensures
        r matches Some(n) ==> color_index(name@) == Some(n as nat),
        r is None ==> color_index(name@) is None,
{
    proof {
        reveal_strlit("black");
        reveal_strlit("red");
        reveal_strlit("green");
        reveal_strlit("yellow");
        reveal_strlit("blue");
        reveal_strlit("magenta");
        reveal_strlit("cyan");
        reveal_strlit("white");
        reveal_strlit("bright_black");
        reveal_strlit("bright_red");
        reveal_strlit("bright_green");
        reveal_strlit("bright_yellow");
        reveal_strlit("bright_blue");
        reveal_strlit("bright_magenta");
        reveal_strlit("bright_cyan");
        reveal_strlit("bright_white");
    }
    if str_eq(name, "black") { Some(0) }
    else if str_eq(name, "red") { Some(1) }
    else if str_eq(name, "green") { Some(2) }
    else if str_eq(name, "yellow") { Some(3) }
    else if str_eq(name, "blue") { Some(4) }
    else if str_eq(name, "magenta") { Some(5) }
    else if str_eq(name, "cyan") { Some(6) }
    else if str_eq(name, "white") { Some(7) }
    else if str_eq(name, "bright_black") { Some(8) }
    else if str_eq(name, "bright_red") { Some(9) }
    else if str_eq(name, "bright_green") { Some(10) }
    else if str_eq(name, "bright_yellow") { Some(11) }
    else if str_eq(name, "bright_blue") { Some(12) }
    else if str_eq(name, "bright_magenta") { Some(13) }
    else if str_eq(name, "bright_cyan") { Some(14) }
    else if str_eq(name, "bright_white") { Some(15) }
    else { None }
}

fn color_code(name: &str, layer: char) -> (s: Vec<char>)
    requires
        layer == '3' || layer == '4',
    ensures
        layer == '3' ==> s@ == fg_code(name@),
        layer == '4' ==> s@ == bg_code(name@),
{
    let mut out: Vec<char> = Vec::new();
    out.push('\x1b');
    out.push('[');
    out.push(layer);
    match color_index_of(name) {
        Some(n) => {
            out.push('8');
            out.push(';');
            out.push('5');
            out.push(';');
            push_decimal(&mut out, n);
            out.push('m');
        },
        None => {
            out.push('9');
            out.push('m');
        },
    }
    assert(layer == '3' ==> out@ =~= fg_code(name@));
    assert(layer == '4' ==> out@ =~= bg_code(name@));
    out
}

/// Terminal escape sequence for a foreground color name.
pub fn get_fg_color(name: &str) -> (s: String)
    ensures
        s@ == fg_code(name@),
{
    let v = color_code(name, '3');
    string_from_chars(&v)
}

/// Terminal escape sequence for a background color name.
pub fn get_bg_color(name: &str) -> (s: String)
    ensures
        s@ == bg_code(name@),
{
    let v = color_code(name, '4');
    string_from_chars(&v)
}

/// One character cell of the screen with its colors.
#[derive(Debug, Clone, PartialEq)]
pub struct Cell {
    pub fg_color: String,
    pub bg_color: String,
    pub ch: char,
}

/// A blank cell: white on black, holding a space.
pub open spec fn is_blank_cell(c: Cell) -> bool {
    c.fg_color@ == fg_code("white"@) && c.bg_color@ == bg_code("black"@) && c.ch == ' '
}

fn blank_cell() -> (c: Cell)
    ensures
        is_blank_cell(c),
{
    Cell { fg_color: get_fg_color("white"), bg_color: get_bg_color("black"), ch: ' ' }
}

fn blank_row(width: usize) -> (r: Vec<Cell>)
    ensures
        r@.len() == width,
        forall|j: int| 0 <= j < width ==> is_blank_cell(#[trigger] r@[j]),
{
    let mut row: Vec<Cell> = Vec::new();
    let mut j: usize = 0;
    while j < width
        invariant
            j <= width,
            row@.len() == j,
            forall|k: int| 0 <= k < j ==> is_blank_cell(#[trigger] row@[k]),
        decreases width - j,
    {
        row.push(blank_cell());
        j = j + 1;
    }
    row
}

fn blank_grid(width: usize, height: usize) -> (g: Vec<Vec<Cell>>)
    ensures
        g@.len() == height,
        forall|i: int| 0 <= i < height ==> #[trigger] g@[i]@.len() == width,
        forall|i: int, j: int|
            0 <= i < height && 0 <= j < width ==> is_blank_cell(#[trigger] g@[i]@[j]),
{
    let mut g: Vec<Vec<Cell>> = Vec::new();
    let mut i: usize = 0;
    while i < height
        invariant
            i <= height,
            g@.len() == i,
            forall|k: int| 0 <= k < i ==> #[trigger] g@[k]@.len() == width,
            forall|k: int, j: int|
                0 <= k < i && 0 <= j < width ==> is_blank_cell(#[trigger] g@[k]@[j]),
        decreases height - i,
    {
        g.push(blank_row(width));
        i = i + 1;
    }
    g
}

/// `row` brought to the length that a resize from `old_w` to `w` gives it:
/// cut at `w` when it shrinks, filled with blank cells up to `w` when it grows.
fn fit_row(row: Vec<Cell>, old_w: usize, w: usize) -> (r: Vec<Cell>)
    ensures
        r@.len() == resized_row_len(row@.len(), old_w, w),
        forall|j: int| 0 <= j < r@.len() && j < row@.len() ==> #[trigger] r@[j] == row@[j],
        forall|j: int| row@.len() <= j < r@.len() ==> is_blank_cell(#[trigger] r@[j]),
{
    let mut row = row;
    let ghost orig = row@;
    if w < old_w {
        row.truncate(w);
    } else if w > old_w {
        if row.len() > w {
            row.truncate(w);
        } else {
            while row.len() < w
                invariant
                    orig.len() <= row@.len() <= w,
                    forall|j: int| 0 <= j < orig.len() ==> #[trigger] row@[j] == orig[j],
                    forall|j: int| orig.len() <= j < row@.len() ==> is_blank_cell(#[trigger] row@[j]),
                decreases w - row@.len(),
            {
                row.push(blank_cell());
            }
        }
    }
    row
}

/// The cells, row by row, of a buffer of rows.
pub open spec fn rows_view(rows: Seq<Vec<Cell>>) -> Seq<Seq<Cell>> {
    rows.map_values(|r: Vec<Cell>| r@)
}

/// The off-screen picture of the terminal, one row of cells per line.
#[derive(Debug, Clone)]
pub struct ScreenBuffer {
    pub width: usize,
    pub height: usize,
    pub buffer: Vec<Vec<Cell>>,
}

/// Number of rows after a resize from `old_h` to `h` of a buffer holding
/// `rows` rows.
pub open spec fn resized_row_count(rows: nat, old_h: usize, h: usize) -> nat {
    if h < old_h {
        if rows <= h { rows } else { h as nat }
    } else if h > old_h {
        h as nat
    } else {
        rows
    }
}

/// Length of a kept row of length `len` after a resize from `old_w` to `w`.
pub open spec fn resized_row_len(len: nat, old_w: usize, w: usize) -> nat {
    if w < old_w {
        if len <= w { len } else { w as nat }
    } else if w > old_w {
        w as nat
    } else {
        len
    }
}

impl ScreenBuffer {
    /// The cells, row by row.
    pub open spec fn grid(self) -> Seq<Seq<Cell>> {
        self.buffer@.map_values(|r: Vec<Cell>| r@)
    }

    /// Rows and cells agree with `width` and `height`, and every cell is blank.
    pub open spec fn is_blank(self, width: usize, height: usize) -> bool {
        &&& self.width == width
        &&& self.height == height
        &&& self.buffer@.len() == height
        &&& forall|i: int| 0 <= i < height ==> #[trigger] self.buffer@[i]@.len() == width
        &&& forall|i: int, j: int|
            0 <= i < height && 0 <= j < width ==> is_blank_cell(#[trigger] self.buffer@[i]@[j])
    }

    /// The rows agree with `width` and `height`.
    pub open spec fn is_shaped(self) -> bool {
        &&& self.buffer@.len() == self.height
        &&& forall|i: int| 0 <= i < self.height ==> #[trigger] self.buffer@[i]@.len() == self.width
    }

    /// Whether a cell inside `width` x `height` is present in the rows.
    pub open spec fn covers(self, x: usize, y: usize) -> bool {
        (x < self.width && y < self.height) ==> (y < self.buffer@.len() && x
            < self.buffer@[y as int]@.len())
    }

    /// A blank buffer of the size of the terminal; the caller measures the terminal.
    pub fn new(width: usize, height: usize) -> (sb: Self)
        ensures
            sb.is_blank(width, height),
    {
        ScreenBuffer { width, height, buffer: blank_grid(width, height) }
    }

    /// A blank buffer of the given size.
    pub fn new_custom(width: usize, height: usize) -> (sb: Self)
        ensures
            sb.is_blank(width, height),
    {
        ScreenBuffer { width, height, buffer: blank_grid(width, height) }
    }

    /// Every cell becomes blank; the size is kept.
    pub fn clear(&mut self)
        ensures
            final(self).is_blank(old(self).width, old(self).height),
    {
        self.buffer = blank_grid(self.width, self.height);
    }

    /// Writes a cell; a position outside the buffer is ignored.
    pub fn update(&mut self, x: usize, y: usize, cell: Cell)
        requires
            old(self).covers(x, y),
        ensures
            final(self).width == old(self).width,
            final(self).height == old(self).height,
            x < old(self).width && y < old(self).height ==> final(self).grid() == old(
                self,
            ).grid().update(y as int, old(self).grid()[y as int].update(x as int, cell)),
            !(x < old(self).width && y < old(self).height) ==> final(self).grid() == old(
                self,
            ).grid(),
    {
        if x < self.width && y < self.height {
            let mut row = self.buffer.remove(y);
            row.set(x, cell);
            self.buffer.insert(y, row);
            proof {
                assert(final(self).grid() =~= old(self).grid().update(
                    y as int,
                    old(self).grid()[y as int].update(x as int, cell),
                ));
            }
        }
    }

    /// `self` is what resizing `old` to `width` x `height` gives: rows and
    /// columns beyond the new size are dropped, new rows and columns are blank,
    /// and every kept cell keeps its content.
    pub open spec fn resized_from(self, old: ScreenBuffer, width: usize, height: usize) -> bool {
        let g = self.grid();
        let og = old.grid();
        &&& self.width == width
        &&& self.height == height
        &&& g.len() == resized_row_count(og.len(), old.height, height)
        &&& forall|i: int|
            0 <= i < g.len() ==> {
                if i < og.len() {
                    &&& (#[trigger] g[i]).len() == resized_row_len(og[i].len(), old.width, width)
                    &&& forall|j: int|
                        0 <= j < g[i].len() ==> (j < og[i].len() ==> #[trigger] g[i][j] == og[i][j])
                            && (j >= og[i].len() ==> is_blank_cell(g[i][j]))
                } else {
                    &&& (#[trigger] g[i]).len() == width
                    &&& forall|j: int| 0 <= j < width ==> is_blank_cell(#[trigger] g[i][j])
                }
            }
    }

    /// Changes the size, keeping the cells that fit.
    pub fn resize(&mut self, width: usize, height: usize)
        ensures
            final(self).resized_from(*old(self), width, height),
    {
        let old_w = self.width;
        let old_h = self.height;
        let mut old_rows: Vec<Vec<Cell>> = Vec::new();
        std::mem::swap(&mut old_rows, &mut self.buffer);
        let ghost orig = old_rows@;
        let rows_len = old_rows.len();
        let count: usize = if height < old_h {
            if rows_len <= height {
                rows_len
            } else {
                height
            }
        } else if height > old_h {
            height
        } else {
            rows_len
        };
        let mut new_rows: Vec<Vec<Cell>> = Vec::new();
        let mut i: usize = 0;
        while i < count
            invariant
                i <= count,
                rows_len == orig.len(),
                count == resized_row_count(orig.len(), old_h, height),
                old_rows@ == orig.skip(if i <= rows_len { i as int } else { rows_len as int }),
                new_rows@.len() == i,
                forall|k: int|
                    0 <= k < i ==> {
                        if k < orig.len() {
                            &&& (#[trigger] new_rows@[k])@.len() == resized_row_len(
                                orig[k]@.len(),
                                old_w,
                                width,
                            )
                            &&& forall|j: int|
                                0 <= j < new_rows@[k]@.len() ==> (j < orig[k]@.len()
                                    ==> #[trigger] new_rows@[k]@[j] == orig[k]@[j]) && (j
                                    >= orig[k]@.len() ==> is_blank_cell(new_rows@[k]@[j]))
                        } else {
                            &&& (#[trigger] new_rows@[k])@.len() == width
                            &&& forall|j: int|
                                0 <= j < width ==> is_blank_cell(#[trigger] new_rows@[k]@[j])
                        }
                    },
            decreases count - i,
        {
            if i < rows_len {
                assert(old_rows@.len() > 0);
                let row = old_rows.remove(0);
                assert(row == orig[i as int]);
                let fitted = fit_row(row, old_w, width);
                new_rows.push(fitted);
                proof {
                    assert(old_rows@ =~= orig.skip(i + 1));
                }
            } else {
                new_rows.push(blank_row(width));
            }
            i = i + 1;
        }
        self.buffer = new_rows;
        self.width = width;
        self.height = height;
        proof {
            let g = final(self).grid();
            let og = old(self).grid();
            assert(og =~= rows_view(orig));
            assert(g =~= rows_view(new_rows@));
        }
    }

    /// The cell at a position inside the buffer.
    pub fn get(&self, x: usize, y: usize) -> (r: Option<&Cell>)
        requires
            self.covers(x, y),
        ensures
            r == (if x < self.width && y < self.height {
                Some(&self.buffer@[y as int]@[x as int])
            } else {
                None
            }),
    {
        if x < self.width && y < self.height {
            Some(&self.buffer[y][x])
        } else {
            None
        }
    }
}

/// A cell written inside the buffer is read back, and no other cell changes.
pub proof fn law_get_after_update(sb: ScreenBuffer, after: ScreenBuffer, x: usize, y: usize, cell: Cell)
    requires
        x < sb.width && y < sb.height,
        sb.covers(x, y),
        after.grid() == sb.grid().update(y as int, sb.grid()[y as int].update(x as int, cell)),
    ensures
        after.grid()[y as int][x as int] == cell,
        forall|i: int, j: int|
            0 <= i < sb.grid().len() && 0 <= j < sb.grid()[i].len() && (i != y || j != x)
                ==> #[trigger] after.grid()[i][j] == sb.grid()[i][j],
{
}

/// Resizing a well-shaped buffer gives a well-shaped buffer of the new size.
pub proof fn law_resize_keeps_shape(old: ScreenBuffer, new: ScreenBuffer, width: usize, height: usize)
    requires
        old.is_shaped(),
        new.resized_from(old, width, height),
    ensures
        new.is_shaped(),
        new.width == width,
        new.height == height,
{
    assert forall|i: int| 0 <= i < new.height implies #[trigger] new.buffer@[i]@.len() == new.width by {
        assert(new.grid()[i] == new.buffer@[i]@);
        if i < old.grid().len() {
            assert(old.grid()[i] == old.buffer@[i]@);
        }
    }
}

/// Resizing a well-shaped buffer to its own size changes no cell.
pub proof fn law_resize_same_size_is_identity(old: ScreenBuffer, new: ScreenBuffer)
    requires
        old.is_shaped(),
        new.resized_from(old, old.width, old.height),
    ensures
        new.grid() == old.grid(),
{
    let g = new.grid();
    let og = old.grid();
    assert forall|i: int| 0 <= i < g.len() implies #[trigger] g[i] == og[i] by {
        assert(og[i] == old.buffer@[i]@);
        assert(g[i] =~= og[i]);
    }
    assert(g =~= og);
}

} // verus!
