use vstd::prelude::*;

verus! {

/// Number of rows of the grid; row 0 is the top, row `ROWS - 1` the bottom.
pub const ROWS: usize = 6;

/// Number of columns of the grid.
pub const COLUMNS: usize = 7;

/// The two colors of tokens.
#[derive(Clone, Copy, PartialEq, Eq, Debug, Structural)]
pub enum Color {
    Yellow,
    Red,
}

/// The error of a move into a column that is out of range or already full.
#[derive(Clone, Copy, PartialEq, Eq, Debug, Structural)]
pub struct InvalidMove;

/// The grid: `ROWS * COLUMNS` slots in row-major order, each empty or
/// holding one token.
#[derive(Clone, Debug)]
pub struct Board {
    slots: Vec<Option<Color>>,
}

impl View for Board {
    type V = Seq<Option<Color>>;

    closed spec fn view(&self) -> Seq<Option<Color>> {
        self.slots@
    }
}

fn index(r: usize, c: usize) -> (i: usize)
    requires
        r < ROWS,
        c < COLUMNS,
    ensures
        i == r * COLUMNS + c,
        i < ROWS * COLUMNS,
{
    r * COLUMNS + c
}

impl Board {
    /// The board is of the right size and obeys gravity.
    pub open spec fn wf(&self) -> bool {
        valid_grid(self@)
    }

    /// An empty board.
    pub fn new() -> (b: Board)
        ensures
            b.wf(),
            b@ == empty_grid(),
    {
        let mut slots: Vec<Option<Color>> = Vec::new();
        for i in 0..ROWS * COLUMNS
            invariant
                slots@ == Seq::new(i as nat, |k: int| None::<Color>),
        {
            slots.push(None);
            assert(slots@ =~= Seq::new((i + 1) as nat, |k: int| None::<Color>));
        }
        Board { slots }
    }

    /// The slot at row `i` and column `j`, or `None` when the position lies
    /// outside the grid.
    pub fn get_slot(&self, i: usize, j: usize) -> (r: Option<Option<Color>>)
        requires
            self.wf(),
        ensures
            r == if in_grid(i as int, j as int) {
                Some(slot(self@, i as int, j as int))
            } else {
                None
            },
    {
        if i >= ROWS || j >= COLUMNS {
            return None;
        }
        Some(self.slots[index(i, j)])
    }

    /// The rows of the grid, top to bottom, each left to right.
    pub fn rows(&self) -> (rs: Vec<Vec<Option<Color>>>)
        requires
            self.wf(),
        ensures
            rs@.len() == ROWS,
            forall|i: int| 0 <= i < ROWS ==> (#[trigger] rs@[i])@ == row_line(self@, i),
    {
        let mut rs: Vec<Vec<Option<Color>>> = Vec::new();
        for i in 0..ROWS
            invariant
                self.wf(),
                rs@.len() == i,
                forall|k: int| 0 <= k < i ==> (#[trigger] rs@[k])@ == row_line(self@, k),
        {
            rs.push(self.row(i));
        }
        rs
    }

    fn row(&self, i: usize) -> (v: Vec<Option<Color>>)
        requires
            self.wf(),
            i < ROWS,
        ensures
            v@ == row_line(self@, i as int),
    {
        let mut v: Vec<Option<Color>> = Vec::new();
        for k in 0..COLUMNS
            invariant
                self.wf(),
                i < ROWS,
                v@ == Seq::new(k as nat, |t: int| slot(self@, i as int, t)),
        {
            v.push(self.slots[index(i, k)]);
            assert(v@ =~= Seq::new((k + 1) as nat, |t: int| slot(self@, i as int, t)));
        }
        v
    }

    fn column(&self, j: usize) -> (v: Vec<Option<Color>>)
        requires
            self.wf(),
            j < COLUMNS,
        ensures
            v@ == column_line(self@, j as int),
    {
        let mut v: Vec<Option<Color>> = Vec::new();
        for k in 0..ROWS
            invariant
                self.wf(),
                j < COLUMNS,
                v@ == Seq::new(k as nat, |t: int| slot(self@, t, j as int)),
        {
            v.push(self.slots[index(k, j)]);
            assert(v@ =~= Seq::new((k + 1) as nat, |t: int| slot(self@, t, j as int)));
        }
        v
    }

    /// The diagonal from bottom left to top right whose slots `(i, j)` have
    /// `i + j == num`.
    fn right_diagonal(&self, num: usize) -> (v: Vec<Option<Color>>)
        requires
            self.wf(),
            num < ROWS + COLUMNS - 1,
        ensures
            v@ == rising_line(self@, num as int),
    {
        let lo: usize = if num >= ROWS - 1 { num - (ROWS - 1) } else { 0 };
        let hi: usize = if num <= COLUMNS - 1 { num } else { COLUMNS - 1 };
        let mut v: Vec<Option<Color>> = Vec::new();
        for j in lo..hi + 1
            invariant
                self.wf(),
                num < ROWS + COLUMNS - 1,
                lo == rising_start(num as int),
                hi == rising_end(num as int),
                v@ == Seq::new((j - lo) as nat, |t: int| slot(self@, num - (lo + t), lo + t)),
        {
            v.push(self.slots[index(num - j, j)]);
            assert(v@ =~= Seq::new(
                (j + 1 - lo) as nat,
                |t: int| slot(self@, num - (lo + t), lo + t),
            ));
        }
        v
    }

    /// The diagonal from top left to bottom right whose slots `(i, j)` have
    /// `j - i == COLUMNS - 1 - num`.
    fn left_diagonal(&self, num: usize) -> (v: Vec<Option<Color>>)
        requires
            self.wf(),
            num < ROWS + COLUMNS - 1,
        ensures
            v@ == falling_line(self@, num as int),
    {
        let lo: usize = if num >= COLUMNS - 1 { num - (COLUMNS - 1) } else { 0 };
        let hi: usize = if num <= ROWS - 1 { num } else { ROWS - 1 };
        let mut v: Vec<Option<Color>> = Vec::new();
        for i in lo..hi + 1
            invariant
                self.wf(),
                num < ROWS + COLUMNS - 1,
                lo == falling_start(num as int),
                hi == falling_end(num as int),
                v@ == Seq::new(
                    (i - lo) as nat,
                    |t: int| slot(self@, lo + t, lo + t + (COLUMNS - 1) - num),
                ),
        {
            v.push(self.slots[index(i, i + (COLUMNS - 1) - num)]);
            assert(v@ =~= Seq::new(
                (i + 1 - lo) as nat,
                |t: int| slot(self@, lo + t, lo + t + (COLUMNS - 1) - num),
            ));
        }
        v
    }

    /// Drops a token of `color` into column `col`: it settles in the lowest
    /// empty slot of that column. A column out of range or already full is
    /// refused, and the board is left as it was.
    pub fn play_turn(&mut self, col: usize, color: Color) -> (r: Result<(), InvalidMove>)
        requires
            old(self).wf(),
        ensures
            final(self).wf(),
            r is Ok <==> col < COLUMNS && !column_full(old(self)@, col as int),
            r is Err ==> final(self)@ == old(self)@,
            r is Ok ==> dropped(old(self)@, final(self)@, col as int, color),
    {
        if col >= COLUMNS {
            return Err(InvalidMove);
        }
        let ghost s = self@;
        let mut row: usize = ROWS;
        while row > 0
            invariant
                self.wf(),
                self@ == s,
                s == old(self)@,
                col < COLUMNS,
                row <= ROWS,
                forall|r2: int| row <= r2 < ROWS ==> (#[trigger] slot(s, r2, col as int)) is Some,
            decreases row,
        {
            row = row - 1;
            let i = index(row, col);
            if self.slots[i].is_none() {
                self.slots.set(i, Some(color));
                assert(lowest_empty(s, row as int, col as int));
                proof {
                    lemma_drop_keeps_gravity(s, self@, col as int, color);
                }
                return Ok(());
            }
        }
        Err(InvalidMove)
    }

    /// A color with four tokens in a line on some row, column or diagonal,
    /// or `None` when there is no such line.
    pub fn get_winner(&self) -> (w: Option<Color>)
        requires
            self.wf(),
        ensures
            match w {
                Some(color) => has_four(self@, color),
                None => forall|color: Color| !has_four(self@, color),
            },
    {
        let ghost s = self@;
        for i in 0..ROWS
            invariant
                self.wf(),
                s == self@,
                forall|k: int, color: Color|
                    0 <= k < i ==> !#[trigger] has_window(row_line(s, k), color),
        {
            let line = self.row(i);
            let found = find_four_consecutive(&line);
            if let Some(color) = found {
                proof {
                    lemma_row_window(s, i as int, color);
                }
                return Some(color);
            }
        }
        for j in 0..COLUMNS
            invariant
                self.wf(),
                s == self@,
                forall|k: int, color: Color|
                    0 <= k < ROWS ==> !#[trigger] has_window(row_line(s, k), color),
                forall|k: int, color: Color|
                    0 <= k < j ==> !#[trigger] has_window(column_line(s, k), color),
        {
            let line = self.column(j);
            let found = find_four_consecutive(&line);
            if let Some(color) = found {
                proof {
                    lemma_column_window(s, j as int, color);
                }
                return Some(color);
            }
        }
        for num in 0..ROWS + COLUMNS - 1
            invariant
                self.wf(),
                s == self@,
                forall|k: int, color: Color|
                    0 <= k < ROWS ==> !#[trigger] has_window(row_line(s, k), color),
                forall|k: int, color: Color|
                    0 <= k < COLUMNS ==> !#[trigger] has_window(column_line(s, k), color),
                forall|k: int, color: Color|
                    0 <= k < num ==> !#[trigger] has_window(falling_line(s, k), color),
                forall|k: int, color: Color|
                    0 <= k < num ==> !#[trigger] has_window(rising_line(s, k), color),
        {
            let line = self.left_diagonal(num);
            let found = find_four_consecutive(&line);
            if let Some(color) = found {
                proof {
                    lemma_falling_window(s, num as int, color);
                }
                return Some(color);
            }
            let line = self.right_diagonal(num);
            let found = find_four_consecutive(&line);
            if let Some(color) = found {
                proof {
                    lemma_rising_window(s, num as int, color);
                }
                return Some(color);
            }
        }
        assert forall|color: Color| !has_four(s, color) by {
            if has_four(s, color) {
                lemma_four_on_some_line(s, color);
            }
        }
        None
    }

    /// True when every slot of the top row is occupied.
    pub fn is_full(&self) -> (r: bool)
        requires
            self.wf(),
        ensures
            r == top_row_full(self@),
    {
        for c in 0..COLUMNS
            invariant
                self.wf(),
                forall|k: int| 0 <= k < c ==> (#[trigger] slot(self@, 0, k)) is Some,
        {
            if self.slots[index(0, c)].is_none() {
                assert(slot(self@, 0, c as int) is None);
                return false;
            }
        }
        true
    }
}

/// True when `(r, c)` names a slot of the grid.
pub open spec fn in_grid(r: int, c: int) -> bool {
    0 <= r < ROWS && 0 <= c < COLUMNS
}

/// The slot at row `r` and column `c` of a grid stored in row-major order.
pub open spec fn slot(s: Seq<Option<Color>>, r: int, c: int) -> Option<Color> {
    s[r * COLUMNS + c]
}

/// In every column the occupied slots form a run that starts at the bottom:
/// no empty slot lies below an occupied one.
pub open spec fn gravity(s: Seq<Option<Color>>) -> bool {
    forall|r: int, c: int|
        0 <= r < ROWS - 1 && 0 <= c < COLUMNS && (#[trigger] slot(s, r, c)) is Some ==> slot(
            s,
            r + 1,
            c,
        ) is Some
}

/// A grid of the right size that obeys gravity.
pub open spec fn valid_grid(s: Seq<Option<Color>>) -> bool {
    s.len() == ROWS * COLUMNS && gravity(s)
}

/// Every slot of column `c` is occupied.
pub open spec fn column_full(s: Seq<Option<Color>>, c: int) -> bool {
    forall|r: int| 0 <= r < ROWS ==> (#[trigger] slot(s, r, c)) is Some
}

/// Row `r` is the lowest empty slot of column `c`.
pub open spec fn lowest_empty(s: Seq<Option<Color>>, r: int, c: int) -> bool {
    &&& 0 <= r < ROWS
    &&& slot(s, r, c) is None
    &&& forall|r2: int| r < r2 < ROWS ==> (#[trigger] slot(s, r2, c)) is Some
}

/// `t` is `s` with a token of `color` in the lowest empty slot of column `c`.
pub open spec fn dropped(s: Seq<Option<Color>>, t: Seq<Option<Color>>, c: int, color: Color) -> bool {
    exists|r: int| lowest_empty(s, r, c) && t == s.update(r * COLUMNS + c, Some(color))
}

/// The grid with no token in it.
pub open spec fn empty_grid() -> Seq<Option<Color>> {
    Seq::new((ROWS * COLUMNS) as nat, |i: int| None::<Color>)
}

/// Every slot of the top row is occupied.
pub open spec fn top_row_full(s: Seq<Option<Color>>) -> bool {
    forall|c: int| 0 <= c < COLUMNS ==> (#[trigger] slot(s, 0, c)) is Some
}

/// The four directions in which a line can run: along a row, down a column,
/// down-right along a falling diagonal, and up-right along a rising one.
pub open spec fn is_direction(dr: int, dc: int) -> bool {
    ||| (dr == 0 && dc == 1)
    ||| (dr == 1 && dc == 0)
    ||| (dr == 1 && dc == 1)
    ||| (dr == -1 && dc == 1)
}

/// Four slots in a line from `(r, c)` in direction `(dr, dc)` all hold
/// `color`.
pub open spec fn four_from(
    s: Seq<Option<Color>>,
    r: int,
    c: int,
    dr: int,
    dc: int,
    color: Color,
) -> bool {
    &&& in_grid(r, c)
    &&& in_grid(r + 3 * dr, c + 3 * dc)
    &&& slot(s, r, c) == Some(color)
    &&& slot(s, r + dr, c + dc) == Some(color)
    &&& slot(s, r + 2 * dr, c + 2 * dc) == Some(color)
    &&& slot(s, r + 3 * dr, c + 3 * dc) == Some(color)
}

/// Some row, column or diagonal holds four consecutive slots of `color`.
pub open spec fn has_four(s: Seq<Option<Color>>, color: Color) -> bool {
    exists|r: int, c: int, dr: int, dc: int|
        is_direction(dr, dc) && #[trigger] four_from(s, r, c, dr, dc, color)
}

/// Positions `i .. i + 4` of `v` all hold `color`.
pub open spec fn window(v: Seq<Option<Color>>, i: int, color: Color) -> bool {
    &&& 0 <= i
    &&& i + 3 < v.len()
    &&& v[i] == Some(color)
    &&& v[i + 1] == Some(color)
    &&& v[i + 2] == Some(color)
    &&& v[i + 3] == Some(color)
}

/// Some window of four consecutive positions of `v` holds `color`.
pub open spec fn has_window(v: Seq<Option<Color>>, color: Color) -> bool {
    exists|i: int| #[trigger] window(v, i, color)
}

/// Row `i`, left to right.
pub open spec fn row_line(s: Seq<Option<Color>>, i: int) -> Seq<Option<Color>> {
    Seq::new(COLUMNS as nat, |k: int| slot(s, i, k))
}

/// Column `j`, top to bottom.
pub open spec fn column_line(s: Seq<Option<Color>>, j: int) -> Seq<Option<Color>> {
    Seq::new(ROWS as nat, |k: int| slot(s, k, j))
}

/// First column of the rising diagonal `num`, made of the slots `(i, j)`
/// with `i + j == num`.
pub open spec fn rising_start(num: int) -> int {
    if num >= ROWS - 1 {
        num - (ROWS - 1)
    } else {
        0
    }
}

/// Last column of the rising diagonal `num`.
pub open spec fn rising_end(num: int) -> int {
    if num <= COLUMNS - 1 {
        num
    } else {
        COLUMNS - 1
    }
}

/// The rising diagonal `num`, from bottom left to top right.
pub open spec fn rising_line(s: Seq<Option<Color>>, num: int) -> Seq<Option<Color>> {
    let lo = rising_start(num);
    Seq::new(
        (rising_end(num) - lo + 1) as nat,
        |k: int| slot(s, num - (lo + k), lo + k),
    )
}

/// First row of the falling diagonal `num`, made of the slots `(i, j)` with
/// `j - i == COLUMNS - 1 - num`.
pub open spec fn falling_start(num: int) -> int {
    if num >= COLUMNS - 1 {
        num - (COLUMNS - 1)
    } else {
        0
    }
}

/// Last row of the falling diagonal `num`.
pub open spec fn falling_end(num: int) -> int {
    if num <= ROWS - 1 {
        num
    } else {
        ROWS - 1
    }
}

/// The falling diagonal `num`, from top left to bottom right.
pub open spec fn falling_line(s: Seq<Option<Color>>, num: int) -> Seq<Option<Color>> {
    let lo = falling_start(num);
    Seq::new(
        (falling_end(num) - lo + 1) as nat,
        |k: int| slot(s, lo + k, lo + k + (COLUMNS - 1) - num),
    )
}

/// The first window of four equal occupied slots in `v`, if there is one.
pub fn find_four_consecutive(v: &Vec<Option<Color>>) -> (r: Option<Color>)
    ensures
        match r {
            Some(color) => has_window(v@, color),
            None => forall|color: Color| !has_window(v@, color),
        },
{
    let n = v.len();
    let mut i: usize = 0;
    while n - i >= 4
        invariant
            n == v@.len(),
            i <= n,
            forall|k: int, color: Color| 0 <= k < i ==> !#[trigger] window(v@, k, color),
        decreases n - i,
    {
        if let Some(a) = v[i] {
            if v[i + 1] == Some(a) && v[i + 2] == Some(a) && v[i + 3] == Some(a) {
                assert(window(v@, i as int, a));
                return Some(a);
            }
        }
        i = i + 1;
    }
    assert forall|color: Color| !has_window(v@, color) by {
        if has_window(v@, color) {
            let k = choose|k: int| window(v@, k, color);
            assert(window(v@, k, color));
        }
    }
    None
}


impl Default for Board {
    fn default() -> (b: Board)
        ensures
            b.wf(),
            b@ == empty_grid(),
    {
        Board::new()
    }
}

/// Dropping a token into a grid that obeys gravity yields a grid that obeys
/// gravity: over any sequence of moves no empty slot comes to lie below an
/// occupied one.
pub proof fn lemma_drop_keeps_gravity(
    s: Seq<Option<Color>>,
    t: Seq<Option<Color>>,
    c: int,
    color: Color,
)
    requires
        valid_grid(s),
        0 <= c < COLUMNS,
        dropped(s, t, c, color),
    ensures
        valid_grid(t),
{
    let row = choose|r: int| lowest_empty(s, r, c) && t == s.update(r * COLUMNS + c, Some(color));
    assert forall|r: int, c2: int|
        0 <= r < ROWS - 1 && 0 <= c2 < COLUMNS && (#[trigger] slot(t, r, c2)) is Some implies slot(
        t,
        r + 1,
        c2,
    ) is Some by {
        if r != row || c2 != c {
            assert(slot(s, r, c2) is Some);
        } else {
            assert(slot(s, r + 1, c2) is Some);
        }
    }
}

/// The empty grid holds no line of four of either color.
pub proof fn lemma_empty_grid_has_no_four()
    ensures
        forall|color: Color| !has_four(empty_grid(), color),
{
    assert forall|color: Color| !has_four(empty_grid(), color) by {
        if has_four(empty_grid(), color) {
            let (r, c, dr, dc) = choose|r: int, c: int, dr: int, dc: int|
                is_direction(dr, dc) && #[trigger] four_from(empty_grid(), r, c, dr, dc, color);
            assert(slot(empty_grid(), r, c) is None);
        }
    }
}

/// On a grid that obeys gravity, a full top row means that every column is
/// full.
pub proof fn lemma_full_top_row_fills_every_column(s: Seq<Option<Color>>)
    requires
        valid_grid(s),
        top_row_full(s),
    ensures
        forall|c: int| 0 <= c < COLUMNS ==> #[trigger] column_full(s, c),
{
    assert forall|c: int| 0 <= c < COLUMNS implies #[trigger] column_full(s, c) by {
        assert forall|r: int| 0 <= r < ROWS implies (#[trigger] slot(s, r, c)) is Some by {
            lemma_filled_down(s, r, c);
        }
    }
}

proof fn lemma_filled_down(s: Seq<Option<Color>>, r: int, c: int)
    requires
        valid_grid(s),
        top_row_full(s),
        0 <= r < ROWS,
        0 <= c < COLUMNS,
    ensures
        slot(s, r, c) is Some,
    decreases r,
{
    if r > 0 {
        lemma_filled_down(s, r - 1, c);
    } else {
        assert(slot(s, 0, c) is Some);
    }
}

/// A window found on row `i` is a horizontal line of four.
proof fn lemma_row_window(s: Seq<Option<Color>>, i: int, color: Color)
    requires
        0 <= i < ROWS,
        has_window(row_line(s, i), color),
    ensures
        has_four(s, color),
{
    let k = choose|k: int| window(row_line(s, i), k, color);
    assert(four_from(s, i, k, 0, 1, color));
}

/// A window found on column `j` is a vertical line of four.
proof fn lemma_column_window(s: Seq<Option<Color>>, j: int, color: Color)
    requires
        0 <= j < COLUMNS,
        has_window(column_line(s, j), color),
    ensures
        has_four(s, color),
{
    let k = choose|k: int| window(column_line(s, j), k, color);
    assert(four_from(s, k, j, 1, 0, color));
}

/// A window found on a rising diagonal is a rising line of four.
proof fn lemma_rising_window(s: Seq<Option<Color>>, num: int, color: Color)
    requires
        0 <= num < ROWS + COLUMNS - 1,
        has_window(rising_line(s, num), color),
    ensures
        has_four(s, color),
{
    let k = choose|k: int| window(rising_line(s, num), k, color);
    let lo = rising_start(num);
    assert(four_from(s, num - (lo + k), lo + k, -1, 1, color));
}

/// A window found on a falling diagonal is a falling line of four.
proof fn lemma_falling_window(s: Seq<Option<Color>>, num: int, color: Color)
    requires
        0 <= num < ROWS + COLUMNS - 1,
        has_window(falling_line(s, num), color),
    ensures
        has_four(s, color),
{
    let k = choose|k: int| window(falling_line(s, num), k, color);
    let lo = falling_start(num);
    assert(four_from(s, lo + k, lo + k + (COLUMNS - 1) - num, 1, 1, color));
}

/// Every line of four lies, as a window, on a row, a column or a diagonal.
proof fn lemma_four_on_some_line(s: Seq<Option<Color>>, color: Color)
    requires
        has_four(s, color),
    ensures
        (exists|i: int| 0 <= i < ROWS && #[trigger] has_window(row_line(s, i), color)) || (exists|
            j: int,
        |
            0 <= j < COLUMNS && #[trigger] has_window(column_line(s, j), color)) || (exists|
            num: int,
        |
            0 <= num < ROWS + COLUMNS - 1 && #[trigger] has_window(rising_line(s, num), color))
            || (exists|num: int|
            0 <= num < ROWS + COLUMNS - 1 && #[trigger] has_window(falling_line(s, num), color)),
{
    let (r, c, dr, dc) = choose|r: int, c: int, dr: int, dc: int|
        is_direction(dr, dc) && #[trigger] four_from(s, r, c, dr, dc, color);
    if dr == 0 {
        assert(window(row_line(s, r), c, color));
        assert(has_window(row_line(s, r), color));
    } else if dc == 0 {
        assert(window(column_line(s, c), r, color));
        assert(has_window(column_line(s, c), color));
    } else if dr == 1 {
        let num = (COLUMNS - 1) - (c - r);
        assert(window(falling_line(s, num), r - falling_start(num), color));
        assert(has_window(falling_line(s, num), color));
    } else {
        let num = r + c;
        assert(window(rising_line(s, num), c - rising_start(num), color));
        assert(has_window(rising_line(s, num), color));
    }
}

} // verus!
