use vstd::prelude::*;

verus! {

/// A player mark. There is no "empty" variant: absence of a player is an
/// `Option<Player>::None` at every read site.
#[derive(Copy, Clone, PartialEq, Eq, Structural, Debug)]
pub enum Player {
    O,
    X,
}

/// A cell address: a (row, column) pair, addressing either the 9x9 global
/// grid or a 3x3 local grid depending on context.
#[derive(Copy, Clone, PartialEq, Eq, Structural, Debug, Hash)]
pub struct Position {
    pub row: usize,
    pub col: usize,
}

/// Componentwise sum of two positions.
pub open spec fn pos_plus(a: Position, b: Position) -> Position {
    Position { row: (a.row + b.row) as usize, col: (a.col + b.col) as usize }
}

/// Row-major linear index of a position in a 3x3 grid.
pub open spec fn spec_pos_to_index(p: Position) -> int {
    p.row * 3 + p.col
}

/// Inverse of `spec_pos_to_index` on 0..9.
pub open spec fn spec_index_to_pos(i: int) -> Position {
    Position { row: (i / 3) as usize, col: (i % 3) as usize }
}

/// Each coordinate rounded down to the nearest multiple of 3: the top-left
/// corner of the 3x3 block that contains `p`.
pub open spec fn spec_corner_of(p: Position) -> Position {
    Position { row: (p.row - p.row % 3) as usize, col: (p.col - p.col % 3) as usize }
}

/// The local offset of `p` inside its 3x3 block: `p - spec_corner_of(p)`.
pub open spec fn spec_offset_of(p: Position) -> Position {
    Position { row: (p.row % 3) as usize, col: (p.col % 3) as usize }
}

/// The row-major index of the 3x3 block of the 9x9 grid that contains `p`.
pub open spec fn spec_board_index(p: Position) -> int {
    (p.row / 3) * 3 + p.col / 3
}

/// The global position of the top-left corner of block `i`:
/// `spec_index_to_pos(i)` scaled by 3.
pub open spec fn spec_corner_pos(i: int) -> Position {
    Position { row: (3 * (i / 3)) as usize, col: (3 * (i % 3)) as usize }
}

impl Position {
    pub fn new(row: usize, col: usize) -> (p: Position)
        ensures
            p.row == row,
            p.col == col,
    {
        Position { row, col }
    }

    /// Componentwise addition.
    pub fn add(self, rhs: Position) -> (p: Position)
        requires
            self.row + rhs.row <= usize::MAX,
            self.col + rhs.col <= usize::MAX,
        ensures
            p == pos_plus(self, rhs),
    {
        Position { row: self.row + rhs.row, col: self.col + rhs.col }
    }

    /// Componentwise subtraction.
    pub fn sub(self, rhs: Position) -> (p: Position)
        requires
            rhs.row <= self.row,
            rhs.col <= self.col,
        ensures
            p.row == self.row - rhs.row,
            p.col == self.col - rhs.col,
    {
        Position { row: self.row - rhs.row, col: self.col - rhs.col }
    }

    /// Componentwise scaling.
    pub fn mul(self, rhs: usize) -> (p: Position)
        requires
            self.row * rhs <= usize::MAX,
            self.col * rhs <= usize::MAX,
        ensures
            p.row == self.row * rhs,
            p.col == self.col * rhs,
    {
        Position { row: self.row * rhs, col: self.col * rhs }
    }

    /// Componentwise integer division (rounding down).
    pub fn div(self, rhs: usize) -> (p: Position)
        requires
            rhs > 0,
        ensures
            p.row == self.row / rhs,
            p.col == self.col / rhs,
    {
        Position { row: self.row / rhs, col: self.col / rhs }
    }
}

impl From<(usize, usize)> for Position {
    fn from(t: (usize, usize)) -> (p: Position) {
        Position::new(t.0, t.1)
    }
}

impl vstd::std_specs::convert::FromSpecImpl<(usize, usize)> for Position {
    open spec fn obeys_from_spec() -> bool {
        true
    }

    open spec fn from_spec(t: (usize, usize)) -> Position {
        Position { row: t.0, col: t.1 }
    }
}

/// The sign that encodes a player in a stored cell weight: positive for O,
/// negative for X.
pub open spec fn sign_of(p: Player) -> int {
    match p {
        Player::O => 1,
        Player::X => -1,
    }
}

/// The player encoded by the sign of a stored value; zero means empty.
pub open spec fn player_of_sign(v: int) -> Option<Player> {
    if v > 0 {
        Some(Player::O)
    } else if v < 0 {
        Some(Player::X)
    } else {
        None
    }
}

/// The opponent of `p`.
pub open spec fn other_player(p: Player) -> Player {
    match p {
        Player::O => Player::X,
        Player::X => Player::O,
    }
}

/// The magic-square weight of cell index `i`: a permutation of 1..=9 laid out
/// so that every row, column and diagonal of the 3x3 grid sums to the same
/// total.
pub open spec fn weight(i: int) -> int {
    if i == 0 {
        4
    } else if i == 1 {
        9
    } else if i == 2 {
        2
    } else if i == 3 {
        3
    } else if i == 4 {
        5
    } else if i == 5 {
        7
    } else if i == 6 {
        8
    } else if i == 7 {
        1
    } else {
        6
    }
}

/// The magic constant: the sum of the weights along any winning line.
pub open spec fn magic_total() -> int {
    weight(0) + weight(1) + weight(2)
}

/// The value stored in cell `i` for an occupant: zero when empty, otherwise
/// the cell's weight carrying the occupant's sign.
pub open spec fn stored_value(i: int, player: Option<Player>) -> i8 {
    match player {
        None => 0,
        Some(p) => (weight(i) * sign_of(p)) as i8,
    }
}

/// A stored value is either zero or exactly the weight of its index, with
/// either sign. No other magnitude ever occurs.
pub open spec fn cell_ok(v: i8, i: int) -> bool {
    v == 0 || v as int == weight(i) || v as int == -weight(i)
}

/// Well-formedness of a 9-element weight vector: one entry per cell of a 3x3
/// grid, each holding zero or its own signed weight.
pub open spec fn valid_cells(vs: Seq<i8>) -> bool {
    vs.len() == 9 && (forall|i: int| 0 <= i < 9 ==> cell_ok(#[trigger] vs[i], i))
}

/// The index triple of winning line `k`: three rows, three columns, then the
/// two diagonals.
pub open spec fn line_indexes(k: int) -> (int, int, int) {
    if k == 0 {
        (0, 1, 2)
    } else if k == 1 {
        (3, 4, 5)
    } else if k == 2 {
        (6, 7, 8)
    } else if k == 3 {
        (0, 3, 6)
    } else if k == 4 {
        (1, 4, 7)
    } else if k == 5 {
        (2, 5, 8)
    } else if k == 6 {
        (0, 4, 8)
    } else {
        (2, 4, 6)
    }
}

/// The outcome of the magic-square test on three stored values: a player
/// exactly when the sum reaches the magic constant with a consistent sign.
pub open spec fn line_player(vs: Seq<i8>, a: int, b: int, c: int) -> Option<Player> {
    let s = vs[a] + vs[b] + vs[c];
    if s == magic_total() {
        Some(Player::O)
    } else if s == -magic_total() {
        Some(Player::X)
    } else {
        None
    }
}

/// The magic-square test applied to winning line `k`.
pub open spec fn line_player_at(vs: Seq<i8>, k: int) -> Option<Player> {
    line_player(vs, line_indexes(k).0, line_indexes(k).1, line_indexes(k).2)
}

/// Line `k` is fully occupied by player `p`.
pub open spec fn line_won_by(vs: Seq<i8>, k: int, p: Player) -> bool {
    &&& player_of_sign(vs[line_indexes(k).0] as int) == Some(p)
    &&& player_of_sign(vs[line_indexes(k).1] as int) == Some(p)
    &&& player_of_sign(vs[line_indexes(k).2] as int) == Some(p)
}

/// The winner derived from a weight vector: the first of the eight lines
/// whose magic-square test names a player, or none.
pub open spec fn winner_of(vs: Seq<i8>) -> Option<Player> {
    if line_player_at(vs, 0) is Some {
        line_player_at(vs, 0)
    } else if line_player_at(vs, 1) is Some {
        line_player_at(vs, 1)
    } else if line_player_at(vs, 2) is Some {
        line_player_at(vs, 2)
    } else if line_player_at(vs, 3) is Some {
        line_player_at(vs, 3)
    } else if line_player_at(vs, 4) is Some {
        line_player_at(vs, 4)
    } else if line_player_at(vs, 5) is Some {
        line_player_at(vs, 5)
    } else if line_player_at(vs, 6) is Some {
        line_player_at(vs, 6)
    } else {
        line_player_at(vs, 7)
    }
}

/// Every entry is strictly positive, i.e. held by `Player::O`.
pub open spec fn all_positive(vs: Seq<i8>) -> bool {
    forall|i: int| 0 <= i < vs.len() ==> #[trigger] vs[i] > 0
}

/// Row-major linear index of a position in a 3x3 grid.
pub fn pos_to_index(pos: &Position) -> (index: usize)
    requires
        pos.row < 3,
        pos.col < 3,
    ensures
        index == spec_pos_to_index(*pos),
        index < 9,
{
    pos.row * 3 + pos.col
}

/// The position of linear index 0..9 in a 3x3 grid.
pub fn index_to_pos(index: usize) -> (p: Position)
    requires
        index < 9,
    ensures
        p == spec_index_to_pos(index as int),
        p.row < 3,
        p.col < 3,
{
    Position::new(index / 3, index % 3)
}

/// The sign under which `player` is stored.
pub fn player_to_sign(player: &Player) -> (s: i8)
    ensures
        s as int == sign_of(*player),
{
    match *player {
        Player::O => 1,
        Player::X => -1,
    }
}

/// The player encoded by the sign of a stored value.
pub fn sign_to_player(sign: i8) -> (r: Option<Player>)
    ensures
        r == player_of_sign(sign as int),
{
    if sign > 0 {
        Some(Player::O)
    } else if sign < 0 {
        Some(Player::X)
    } else {
        None
    }
}

/// The top-left corner of the 3x3 block containing `pos`: each coordinate
/// rounded down to the nearest multiple of 3.
pub fn top_left_pos(pos: &Position) -> (corner: Position)
    ensures
        corner == spec_corner_of(*pos),
        corner.row <= pos.row,
        corner.col <= pos.col,
{
    Position::new(pos.row - pos.row % 3, pos.col - pos.col % 3)
}

/// The magic-square weight of cell index 0..9.
pub fn weight_for(index: usize) -> (w: i8)
    requires
        index < 9,
    ensures
        w as int == weight(index as int),
        1 <= w <= 9,
{
    match index {
        0 => 4,
        1 => 9,
        2 => 2,
        3 => 3,
        4 => 5,
        5 => 7,
        6 => 8,
        7 => 1,
        _ => 6,
    }
}

/// Sums the three stored values addressed by `indexes`; exactly when the sum
/// reaches the magic constant in absolute value, the player whose sign it
/// carries has that line.
pub fn get_winning_player_at(values: &Vec<i8>, indexes: [usize; 3]) -> (r: Option<Player>)
    requires
        values@.len() == 9,
        forall|i: int| 0 <= i < 9 ==> -9 <= #[trigger] values@[i] <= 9,
        indexes@[0] < 9,
        indexes@[1] < 9,
        indexes@[2] < 9,
    ensures
        r == line_player(values@, indexes@[0] as int, indexes@[1] as int, indexes@[2] as int),
{
    let sum: i8 = values[indexes[0]] + values[indexes[1]] + values[indexes[2]];
    let expected: i8 = weight_for(0) + weight_for(1) + weight_for(2);
    let v: i8 = if sum == expected {
        1
    } else if sum + expected == 0 {
        -1
    } else {
        0
    };
    sign_to_player(v)
}

/// The winner derived from a full weight vector: the eight lines tried in a
/// fixed order, short-circuiting on the first hit.
pub fn compute_winner(values: &Vec<i8>) -> (r: Option<Player>)
    requires
        values@.len() == 9,
        forall|i: int| 0 <= i < 9 ==> -9 <= #[trigger] values@[i] <= 9,
    ensures
        r == winner_of(values@),
{
    let r = get_winning_player_at(values, [0, 1, 2]);
    if r.is_some() {
        return r;
    }
    let r = get_winning_player_at(values, [3, 4, 5]);
    if r.is_some() {
        return r;
    }
    let r = get_winning_player_at(values, [6, 7, 8]);
    if r.is_some() {
        return r;
    }
    let r = get_winning_player_at(values, [0, 3, 6]);
    if r.is_some() {
        return r;
    }
    let r = get_winning_player_at(values, [1, 4, 7]);
    if r.is_some() {
        return r;
    }
    let r = get_winning_player_at(values, [2, 5, 8]);
    if r.is_some() {
        return r;
    }
    let r = get_winning_player_at(values, [0, 4, 8]);
    if r.is_some() {
        return r;
    }
    get_winning_player_at(values, [2, 4, 6])
}

/// Law: rounding to the block corner is idempotent, and the offset left over
/// always lies inside the local 3x3 range.
pub proof fn lemma_corner_idempotent(p: Position)
    ensures
        spec_corner_of(spec_corner_of(p)) == spec_corner_of(p),
        p.row - spec_corner_of(p).row == p.row % 3,
        p.col - spec_corner_of(p).col == p.col % 3,
        0 <= p.row % 3 < 3,
        0 <= p.col % 3 < 3,
{
    assert((p.row - p.row % 3) % 3 == 0 && (p.col - p.col % 3) % 3 == 0) by {
        let qr = p.row / 3;
        let qc = p.col / 3;
        assert(p.row == 3 * qr + p.row % 3 && p.col == 3 * qc + p.col % 3);
        assert((3 * qr) % 3 == 0 && (3 * qc) % 3 == 0) by (nonlinear_arith);
    }
}

/// Law: the row-major index mapping and its inverse round-trip on the 3x3
/// grid, position to index and back.
pub proof fn lemma_pos_index_round_trip(p: Position)
    requires
        p.row < 3,
        p.col < 3,
    ensures
        spec_index_to_pos(spec_pos_to_index(p)) == p,
{
}

/// Law: the row-major index mapping and its inverse round-trip on the 3x3
/// grid, index to position and back.
pub proof fn lemma_index_pos_round_trip(i: int)
    requires
        0 <= i < 9,
    ensures
        spec_pos_to_index(spec_index_to_pos(i)) == i,
{
}

/// Quotient and remainder by 3 are unique: writing a number as three times a
/// quotient plus a remainder below 3 names its division results.
pub proof fn lemma_div3(a: int, r: int)
    ensures
        0 <= a && 0 <= r < 3 ==> (3 * a + r) / 3 == a && (3 * a + r) % 3 == r,
{
    if 0 <= a && 0 <= r < 3 {
        vstd::arithmetic::div_mod::lemma_fundamental_div_mod_converse(3 * a + r, 3, a, r);
    }
}

/// The heart of the magic-square trick: on a well-formed weight vector, the
/// sum test on line `k` names a player exactly when that player occupies all
/// three cells of the line. No mixed or partial occupancy of a line can reach
/// the magic constant.
pub proof fn lemma_line_characterized(vs: Seq<i8>, k: int, p: Player)
    requires
        valid_cells(vs),
        0 <= k < 8,
    ensures
        line_player_at(vs, k) == Some(p) <==> line_won_by(vs, k, p),
{
    let a = line_indexes(k).0;
    let b = line_indexes(k).1;
    let c = line_indexes(k).2;
    assert(cell_ok(vs[a], a) && cell_ok(vs[b], b) && cell_ok(vs[c], c));
    assert(weight(a) + weight(b) + weight(c) == magic_total());
}

/// The line characterization quantified over all eight lines and both
/// players.
pub proof fn lemma_lines_characterized(vs: Seq<i8>)
    requires
        valid_cells(vs),
    ensures
        forall|k: int, p: Player|
            0 <= k < 8 ==> (line_player_at(vs, k) == Some(p) <==> #[trigger] line_won_by(
                vs,
                k,
                p,
            )),
{
    assert forall|k: int, p: Player|
        0 <= k < 8 implies (line_player_at(vs, k) == Some(p) <==> #[trigger] line_won_by(
        vs,
        k,
        p,
    )) by {
        lemma_line_characterized(vs, k, p);
    }
}

/// Law: the derived winner is absent exactly when no line is fully occupied
/// by a single player.
pub proof fn lemma_winner_none_iff(vs: Seq<i8>)
    requires
        valid_cells(vs),
    ensures
        (winner_of(vs) is None) <==> (forall|k: int, p: Player|
            0 <= k < 8 ==> !#[trigger] line_won_by(vs, k, p)),
{
    lemma_lines_characterized(vs);
    if winner_of(vs) is None {
        assert forall|k: int, p: Player| 0 <= k < 8 implies !#[trigger] line_won_by(vs, k, p) by {
            assert(line_player_at(vs, k) is None);
        }
    } else {
        let chosen = chain_stop(vs);
        assert(0 <= chosen < 8 && line_player_at(vs, chosen) == winner_of(vs));
        match winner_of(vs) {
            Some(p) => {
                assert(line_won_by(vs, chosen, p));
            },
            None => {},
        }
    }
}

/// The first of the eight lines whose magic-square test names a player; 7
/// when none does.
pub open spec fn chain_stop(vs: Seq<i8>) -> int {
    if line_player_at(vs, 0) is Some {
        0
    } else if line_player_at(vs, 1) is Some {
        1
    } else if line_player_at(vs, 2) is Some {
        2
    } else if line_player_at(vs, 3) is Some {
        3
    } else if line_player_at(vs, 4) is Some {
        4
    } else if line_player_at(vs, 5) is Some {
        5
    } else if line_player_at(vs, 6) is Some {
        6
    } else {
        7
    }
}

/// Law: a derived winner always owes its win to some fully occupied line.
pub proof fn lemma_winner_implies_line(vs: Seq<i8>, p: Player)
    requires
        valid_cells(vs),
        winner_of(vs) == Some(p),
    ensures
        exists|k: int| 0 <= k < 8 && line_won_by(vs, k, p),
{
    lemma_lines_characterized(vs);
    let chosen = chain_stop(vs);
    assert(0 <= chosen < 8 && line_player_at(vs, chosen) == Some(p));
    assert(line_won_by(vs, chosen, p));
}

/// Law: a line fully occupied by `p` makes `p` the derived winner, as long as
/// the opponent holds no full line of their own.
pub proof fn lemma_line_gives_winner(vs: Seq<i8>, k: int, p: Player)
    requires
        valid_cells(vs),
        0 <= k < 8,
        line_won_by(vs, k, p),
        forall|j: int| 0 <= j < 8 ==> !#[trigger] line_won_by(vs, j, other_player(p)),
    ensures
        winner_of(vs) == Some(p),
{
    lemma_lines_characterized(vs);
    assert forall|j: int| 0 <= j < 8 implies line_player_at(vs, j) == Some(p) || line_player_at(
        vs,
        j,
    ) is None by {
        match line_player_at(vs, j) {
            Some(q) => {
                if q != p {
                    assert(q == other_player(p));
                    assert(line_won_by(vs, j, q));
                }
            },
            None => {},
        }
    }
    assert(line_player_at(vs, k) == Some(p));
}

/// The capability shared by the two board layers. `LocalBoard` implements it
/// over single cells, `GlobalBoard` one level up, over sub-board outcomes.
pub trait Board: Sized {
    /// Well-formedness of the representation; established by the constructor
    /// and preserved by every operation.
    spec fn wf(&self) -> bool;

    /// Which positions this board addresses.
    spec fn in_bounds(&self, pos: Position) -> bool;

    /// The winner derived from the current state.
    spec fn the_winner(&self) -> Option<Player>;

    /// The occupant read back at a position.
    spec fn cell(&self, pos: Position) -> Option<Player>;

    /// The move list, in index order.
    spec fn moves(&self) -> Seq<Position>;

    /// Whether every slot is strictly positive, i.e. held by `Player::O`
    /// (see `finished`).
    spec fn done(&self) -> bool;

    /// How a single write transforms the state.
    spec fn set_rel(pre: Self, post: Self, pos: Position, player: Option<Player>) -> bool;

    fn winner(&self) -> (r: Option<Player>)
        requires
            self.wf(),
        ensures
            r == self.the_winner(),
    ;

    /// Writes or clears one cell. No occupancy check is made: overwriting a
    /// non-empty cell silently replaces its value.
    fn set_pos(&mut self, pos: Position, player: Option<Player>)
        requires
            old(self).wf(),
            old(self).in_bounds(pos),
        ensures
            final(self).wf(),
            Self::set_rel(*old(self), *final(self), pos, player),
    ;

    fn get_pos(&self, pos: Position) -> (r: Option<Player>)
        requires
            self.wf(),
            self.in_bounds(pos),
        ensures
            r == self.cell(pos),
    ;

    fn get_moves(&self) -> (r: Vec<Position>)
        requires
            self.wf(),
        ensures
            r@ == self.moves(),
    ;

    /// Reports whether every slot is held by `Player::O`. Note: a full board
    /// holding any X, and a board with empty slots, both report false; this
    /// is the deliberate meaning of `done`.
    fn finished(&self) -> (r: bool)
        requires
            self.wf(),
        ensures
            r == self.done(),
    ;
}

} // verus!
