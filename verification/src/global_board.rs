use vstd::prelude::*;

use crate::common::{
    all_positive, compute_winner, index_to_pos, line_won_by, other_player, player_of_sign,
    player_to_sign, pos_plus, pos_to_index, sign_to_player, spec_board_index, spec_corner_of,
    spec_corner_pos, spec_index_to_pos, spec_offset_of, spec_pos_to_index, stored_value,
    top_left_pos, valid_cells, weight_for, winner_of, Board, Player, Position,
};
use crate::local_board::{local_cell, local_moves, local_moves_below, local_set, LocalBoard};

verus! {

/// The meta-game: nine sub-boards, a vector of decided sub-board outcomes in
/// the same signed-weight encoding, and the "play where sent" pointer.
pub struct GlobalBoard {
    pub values: Vec<i8>,
    pub boards: Vec<LocalBoard>,
    pub next_board: Option<usize>,
}

/// The move list of one sub-board translated to global coordinates by its
/// corner offset.
pub open spec fn shifted(moves: Seq<Position>, delta: Position) -> Seq<Position> {
    moves.map_values(|m: Position| pos_plus(m, delta))
}

/// The translated moves of every still-open sub-board with index below `n`,
/// in sub-board order.
pub open spec fn open_moves_below(g: GlobalBoard, n: int) -> Seq<Position>
    decreases n,
{
    if n <= 0 {
        Seq::empty()
    } else {
        open_moves_below(g, n - 1) + (if g.values@[n - 1] == 0 {
            shifted(local_moves(g.boards@[n - 1].board@), spec_corner_pos(n - 1))
        } else {
            Seq::empty()
        })
    }
}

/// The legal-move set: the open cells of the sub-board the player was sent
/// to, or of every undecided sub-board when unconstrained, all in global
/// coordinates.
pub open spec fn global_moves(g: GlobalBoard) -> Seq<Position> {
    match g.next_board {
        Some(i) => shifted(local_moves(g.boards@[i as int].board@), spec_corner_pos(i as int)),
        None => open_moves_below(g, 9),
    }
}

/// The occupant read back at a global position: the decided outcome of the
/// owning sub-board when it is closed, the addressed cell otherwise.
pub open spec fn global_cell(g: GlobalBoard, pos: Position) -> Option<Player> {
    let bi = spec_board_index(pos);
    if g.values@[bi] != 0 {
        player_of_sign(g.values@[bi] as int)
    } else {
        local_cell(g.boards@[bi].board@, spec_offset_of(pos))
    }
}

/// How one write transforms the meta-game: the addressed sub-board takes the
/// write; if it then has a winner its outcome is frozen into `values` and the
/// constraint lifts, otherwise the opponent is sent to that sub-board.
pub open spec fn global_set_rel(
    pre: GlobalBoard,
    post: GlobalBoard,
    pos: Position,
    player: Option<Player>,
) -> bool {
    let bi = spec_board_index(pos);
    let nb = local_set(pre.boards@[bi].board@, spec_offset_of(pos), player);
    &&& post.boards@.len() == 9
    &&& (forall|j: int| 0 <= j < 9 && j != bi ==> #[trigger] post.boards@[j] == pre.boards@[j])
    &&& post.boards@[bi].board@ == nb
    &&& match winner_of(nb) {
        None => post.values@ == pre.values@ && post.next_board == Some(bi as usize),
        Some(p) => post.values@ == pre.values@.update(bi, stored_value(bi, Some(p)))
            && post.next_board is None,
    }
}

impl GlobalBoard {
    /// A meta-game with all nine sub-boards open and empty and no move
    /// constraint.
    pub fn new() -> (g: GlobalBoard)
        ensures
            g.wf(),
            g.values@.len() == 9,
            forall|i: int| 0 <= i < 9 ==> g.values@[i] == 0,
            g.boards@.len() == 9,
            forall|i: int, j: int|
                0 <= i < 9 && 0 <= j < 9 ==> #[trigger] g.boards@[i].board@[j] == 0,
            forall|i: int| 0 <= i < 9 ==> (#[trigger] g.boards@[i]).board@.len() == 9,
            g.next_board is None,
    {
        let mut values: Vec<i8> = Vec::with_capacity(9);
        let mut boards: Vec<LocalBoard> = Vec::with_capacity(9);
        let mut i: usize = 0;
        while i < 9
            invariant
                i <= 9,
                values@.len() == i,
                boards@.len() == i,
                forall|j: int| 0 <= j < i ==> values@[j] == 0,
                forall|j: int| 0 <= j < i ==> (#[trigger] boards@[j]).board@.len() == 9,
                forall|j: int, k: int|
                    0 <= j < i && 0 <= k < 9 ==> #[trigger] boards@[j].board@[k] == 0,
            decreases 9 - i,
        {
            values.push(0);
            boards.push(LocalBoard::new());
            i = i + 1;
        }
        GlobalBoard { values, boards, next_board: None }
    }
}

impl Board for GlobalBoard {
    open spec fn wf(&self) -> bool {
        &&& valid_cells(self.values@)
        &&& self.boards@.len() == 9
        &&& (forall|i: int| 0 <= i < 9 ==> valid_cells(#[trigger] self.boards@[i].board@))
        &&& match self.next_board {
            Some(i) => i < 9,
            None => true,
        }
    }

    open spec fn in_bounds(&self, pos: Position) -> bool {
        pos.row < 9 && pos.col < 9
    }

    open spec fn the_winner(&self) -> Option<Player> {
        winner_of(self.values@)
    }

    open spec fn cell(&self, pos: Position) -> Option<Player> {
        global_cell(*self, pos)
    }

    open spec fn moves(&self) -> Seq<Position> {
        global_moves(*self)
    }

    open spec fn done(&self) -> bool {
        all_positive(self.values@)
    }

    open spec fn set_rel(pre: Self, post: Self, pos: Position, player: Option<Player>) -> bool {
        global_set_rel(pre, post, pos, player)
    }

    fn winner(&self) -> Option<Player> {
        proof {
            crate::local_board::lemma_valid_cells_bounded(self.values@);
        }
        compute_winner(&self.values)
    }

    fn set_pos(&mut self, pos: Position, player: Option<Player>) {
        let corner = top_left_pos(&pos);
        let offset = pos.sub(corner);
        let board_pos = corner.div(3);
        let index = pos_to_index(&board_pos);
        proof {
            lemma_decompose(pos);
        }
        self.boards[index].set_pos(offset, player);
        match self.boards[index].winner() {
            None => {
                self.next_board = Some(index);
            },
            Some(p) => {
                let w = weight_for(index);
                let s = player_to_sign(&p);
                proof {
                    crate::local_board::lemma_signed_weight(index as int, p);
                }
                self.values[index] = w * s;
                self.next_board = None;
            },
        }
    }

    fn get_pos(&self, pos: Position) -> Option<Player> {
        let corner = top_left_pos(&pos);
        let board_pos = corner.div(3);
        let index = pos_to_index(&board_pos);
        proof {
            lemma_decompose(pos);
        }
        let value = self.values[index];
        match sign_to_player(value) {
            Some(p) => Some(p),
            None => {
                let offset = pos.sub(corner);
                self.boards[index].get_pos(offset)
            },
        }
    }

    fn get_moves(&self) -> Vec<Position> {
        match self.next_board {
            Some(index) => {
                proof {
                    lemma_local_moves_small(self.boards@[index as int].board@);
                }
                normalize_moves(self.boards[index].get_moves(), index)
            },
            None => {
                let mut result: Vec<Position> = Vec::new();
                let mut j: usize = 0;
                while j < 9
                    invariant
                        j <= 9,
                        self.wf(),
                        result@ == open_moves_below(*self, j as int),
                    decreases 9 - j,
                {
                    if sign_to_player(self.values[j]).is_none() {
                        proof {
                            lemma_local_moves_small(self.boards@[j as int].board@);
                        }
                        let mut ms = normalize_moves(self.boards[j].get_moves(), j);
                        result.append(&mut ms);
                    }
                    j = j + 1;
                    assert(result@ =~= open_moves_below(*self, j as int));
                }
                result
            },
        }
    }

    fn finished(&self) -> bool {
        let mut i: usize = 0;
        while i < 9
            invariant
                i <= 9,
                self.values@.len() == 9,
                forall|j: int| 0 <= j < i ==> self.values@[j] > 0,
            decreases 9 - i,
        {
            if self.values[i] <= 0 {
                return false;
            }
            i = i + 1;
        }
        true
    }
}

/// Translates the moves of sub-board `i` from local to global coordinates by
/// adding the sub-board's corner.
pub fn normalize_moves(moves: Vec<Position>, i: usize) -> (r: Vec<Position>)
    requires
        i < 9,
        forall|k: int|
            0 <= k < moves@.len() ==> (#[trigger] moves@[k]).row < 3 && moves@[k].col < 3,
    ensures
        r@ == shifted(moves@, spec_corner_pos(i as int)),
{
    let delta = index_to_pos(i).mul(3);
    let mut r: Vec<Position> = Vec::new();
    let mut k: usize = 0;
    while k < moves.len()
        invariant
            k <= moves@.len(),
            delta == spec_corner_pos(i as int),
            delta.row <= 6,
            delta.col <= 6,
            forall|m: int|
                0 <= m < moves@.len() ==> (#[trigger] moves@[m]).row < 3 && moves@[m].col < 3,
            r@.len() == k,
            forall|m: int| 0 <= m < k ==> #[trigger] r@[m] == pos_plus(moves@[m], delta),
        decreases moves@.len() - k,
    {
        r.push(moves[k].add(delta));
        k = k + 1;
    }
    assert(r@ =~= shifted(moves@, spec_corner_pos(i as int)));
    r
}

/// A global position decomposes into its block corner, the local offset
/// inside the block, and the block's row-major index, and the pieces agree
/// with one another.
pub proof fn lemma_decompose(pos: Position)
    ensures
        spec_corner_of(pos).row % 3 == 0,
        spec_corner_of(pos).col % 3 == 0,
        spec_corner_of(pos).row / 3 == pos.row / 3,
        spec_corner_of(pos).col / 3 == pos.col / 3,
        spec_pos_to_index(
            Position { row: (pos.row / 3) as usize, col: (pos.col / 3) as usize },
        ) == spec_board_index(pos),
        spec_offset_of(pos).row < 3,
        spec_offset_of(pos).col < 3,
        pos.row < 9 ==> pos.row / 3 < 3,
        pos.col < 9 ==> pos.col / 3 < 3,
{
    assert(spec_corner_of(pos).row / 3 == pos.row / 3 && spec_corner_of(pos).row % 3 == 0) by {
        let q = pos.row / 3;
        assert(pos.row == 3 * q + pos.row % 3);
        assert((3 * q) / 3 == q) by (nonlinear_arith);
        assert((3 * q) % 3 == 0) by (nonlinear_arith);
    }
    assert(spec_corner_of(pos).col / 3 == pos.col / 3 && spec_corner_of(pos).col % 3 == 0) by {
        let q = pos.col / 3;
        assert(pos.col == 3 * q + pos.col % 3);
        assert((3 * q) / 3 == q) by (nonlinear_arith);
        assert((3 * q) % 3 == 0) by (nonlinear_arith);
    }
}

/// Clearing a cell of a sub-board that has no winner cannot create one:
/// every fully occupied line of the cleared vector avoids the cleared cell,
/// so it was already fully occupied before.
pub proof fn lemma_clear_keeps_no_winner(vs: Seq<i8>, pos: Position)
    requires
        valid_cells(vs),
        pos.row < 3,
        pos.col < 3,
        winner_of(vs) is None,
    ensures
        winner_of(local_set(vs, pos, None)) is None,
{
    let ws = local_set(vs, pos, None);
    let idx = spec_pos_to_index(pos);
    crate::local_board::lemma_local_set_valid(vs, pos, None);
    crate::common::lemma_winner_none_iff(vs);
    crate::common::lemma_winner_none_iff(ws);
    assert forall|k: int, p: Player| 0 <= k < 8 implies !#[trigger] line_won_by(ws, k, p) by {
        if line_won_by(ws, k, p) {
            let a = crate::common::line_indexes(k).0;
            let b = crate::common::line_indexes(k).1;
            let c = crate::common::line_indexes(k).2;
            assert(ws[idx] == 0);
            assert(ws[a] != 0 && ws[b] != 0 && ws[c] != 0);
            assert(ws[a] == vs[a] && ws[b] == vs[b] && ws[c] == vs[c]);
            assert(line_won_by(vs, k, p));
        }
    }
}

/// Writing a player's mark into a sub-board that has no winner can close the
/// sub-board only for that player: every fully occupied line of the written
/// vector runs through the written cell, which carries the writer's sign.
proof fn lemma_write_wins_only_for_writer(vs: Seq<i8>, pos: Position, pl: Player)
    requires
        valid_cells(vs),
        pos.row < 3,
        pos.col < 3,
        winner_of(vs) is None,
    ensures
        winner_of(local_set(vs, pos, Some(pl))) is None || winner_of(local_set(vs, pos, Some(pl)))
            == Some(pl),
{
    let nb = local_set(vs, pos, Some(pl));
    let idx = spec_pos_to_index(pos);
    crate::local_board::lemma_local_set_valid(vs, pos, Some(pl));
    crate::local_board::lemma_local_write_read(vs, pos, pos, Some(pl));
    crate::common::lemma_winner_none_iff(vs);
    match winner_of(nb) {
        None => {},
        Some(q) => {
            if q != pl {
                crate::common::lemma_winner_implies_line(nb, q);
                let k = choose|k: int| 0 <= k < 8 && line_won_by(nb, k, q);
                let a = crate::common::line_indexes(k).0;
                let b = crate::common::line_indexes(k).1;
                let c = crate::common::line_indexes(k).2;
                assert(player_of_sign(nb[idx] as int) == Some(pl));
                assert(a != idx && b != idx && c != idx);
                assert(nb[a] == vs[a] && nb[b] == vs[b] && nb[c] == vs[c]);
                assert(line_won_by(vs, k, q));
                assert(false);
            }
        },
    }
}

/// Law: a write into an open, not yet won sub-board is read back exactly;
/// when the write does not close the sub-board, a subsequent clear of the
/// same cell reads back as empty. (A write that does close the sub-board
/// freezes its outcome: reads then bypass the cells, so the clear is no
/// longer visible.)
pub proof fn lemma_global_write_read(
    pre: GlobalBoard,
    mid: GlobalBoard,
    post: GlobalBoard,
    pos: Position,
    pl: Player,
)
    requires
        pre.wf(),
        pos.row < 9,
        pos.col < 9,
        pre.values@[spec_board_index(pos)] == 0,
        winner_of(pre.boards@[spec_board_index(pos)].board@) is None,
        global_set_rel(pre, mid, pos, Some(pl)),
        global_set_rel(mid, post, pos, None),
    ensures
        global_cell(mid, pos) == Some(pl),
        winner_of(
            local_set(pre.boards@[spec_board_index(pos)].board@, spec_offset_of(pos), Some(pl)),
        ) is None ==> global_cell(post, pos) == None::<Player>,
{
    let bi = spec_board_index(pos);
    let off = spec_offset_of(pos);
    lemma_decompose(pos);
    let vs = pre.boards@[bi].board@;
    let nb1 = local_set(vs, off, Some(pl));
    crate::local_board::lemma_local_set_valid(vs, off, Some(pl));
    crate::local_board::lemma_local_write_read(vs, off, off, Some(pl));
    lemma_write_wins_only_for_writer(vs, off, pl);
    match winner_of(nb1) {
        None => {
            assert(mid.values@ == pre.values@ && mid.boards@[bi].board@ == nb1);
            assert(global_cell(mid, pos) == Some(pl));
            lemma_clear_keeps_no_winner(nb1, off);
            let nb2 = local_set(nb1, off, None);
            crate::local_board::lemma_local_write_read(nb1, off, off, None);
            assert(post.values@ == mid.values@ && post.boards@[bi].board@ == nb2);
        },
        Some(q) => {
            assert(q == pl);
            crate::local_board::lemma_signed_weight(bi, pl);
            assert(mid.values@[bi] == stored_value(bi, Some(pl)));
            assert(global_cell(mid, pos) == Some(pl));
        },
    }
}

/// Law: three decided sub-boards that form a line for one player make that
/// player the meta-game's winner, as long as the opponent holds no decided
/// line of their own.
pub proof fn lemma_global_line_win(g: GlobalBoard, k: int, p: Player)
    requires
        g.wf(),
        0 <= k < 8,
        line_won_by(g.values@, k, p),
        forall|j: int| 0 <= j < 8 ==> !#[trigger] line_won_by(g.values@, j, other_player(p)),
    ensures
        g.the_winner() == Some(p),
{
    crate::common::lemma_line_gives_winner(g.values@, k, p);
}

/// The decided-outcome vector and the sub-boards' derived winners agree: an
/// entry is zero exactly while its sub-board has no winner, and a non-zero
/// entry carries the winner's sign.
pub open spec fn outcomes_agree(g: GlobalBoard) -> bool {
    forall|i: int|
        0 <= i < 9 ==> match winner_of((#[trigger] g.boards@[i]).board@) {
            None => g.values@[i] == 0,
            Some(p) => player_of_sign(g.values@[i] as int) == Some(p),
        }
}

/// The move constraint, when present, points at a sub-board whose outcome is
/// still undecided.
pub open spec fn constraint_open(g: GlobalBoard) -> bool {
    match g.next_board {
        Some(i) => i < 9 && g.values@[i as int] == 0,
        None => true,
    }
}

/// Law: a write into a still-open sub-board keeps the decided vector in
/// agreement with the sub-boards' winners, and leaves the move constraint
/// pointing at an undecided sub-board or absent. These invariants hold of
/// every state reached from a fresh board by such writes.
pub proof fn lemma_play_preserves_invariants(
    pre: GlobalBoard,
    post: GlobalBoard,
    pos: Position,
    player: Option<Player>,
)
    requires
        pre.wf(),
        pos.row < 9,
        pos.col < 9,
        pre.values@[spec_board_index(pos)] == 0,
        outcomes_agree(pre),
        global_set_rel(pre, post, pos, player),
    ensures
        outcomes_agree(post),
        constraint_open(post),
{
    let bi = spec_board_index(pos);
    lemma_decompose(pos);
    let nb = local_set(pre.boards@[bi].board@, spec_offset_of(pos), player);
    match winner_of(nb) {
        None => {},
        Some(p) => {
            crate::local_board::lemma_signed_weight(bi, p);
        },
    }
}

/// Law: a fresh board satisfies the two state invariants: nothing is decided
/// and no constraint is set.
pub proof fn lemma_fresh_invariants(g: GlobalBoard)
    requires
        g.values@.len() == 9,
        forall|i: int| 0 <= i < 9 ==> g.values@[i] == 0,
        g.boards@.len() == 9,
        forall|i: int, j: int| 0 <= i < 9 && 0 <= j < 9 ==> #[trigger] g.boards@[i].board@[j] == 0,
        forall|i: int| 0 <= i < 9 ==> (#[trigger] g.boards@[i]).board@.len() == 9,
        g.next_board is None,
    ensures
        outcomes_agree(g),
        constraint_open(g),
{
    assert forall|i: int| 0 <= i < 9 implies winner_of(
        (#[trigger] g.boards@[i]).board@,
    ) is None by {
        let vs = g.boards@[i].board@;
        assert(vs[0] == 0 && vs[1] == 0 && vs[2] == 0 && vs[3] == 0 && vs[4] == 0 && vs[5] == 0
            && vs[6] == 0 && vs[7] == 0 && vs[8] == 0);
    }
}

/// The translated move list of sub-board `i` holds exactly the in-range
/// global positions that decompose to sub-board `i` and an empty cell there.
proof fn lemma_sub_moves_contains(vs: Seq<i8>, i: int, m: Position)
    requires
        vs.len() == 9,
        0 <= i < 9,
    ensures
        shifted(local_moves(vs), spec_corner_pos(i)).contains(m) <==> (m.row < 9 && m.col < 9
            && spec_board_index(m) == i && vs[spec_pos_to_index(spec_offset_of(m))] == 0),
{
    let s = shifted(local_moves(vs), spec_corner_pos(i));
    let corner = spec_corner_pos(i);
    crate::common::lemma_div3(i / 3, i % 3);
    assert(corner.row == 3 * (i / 3) && corner.col == 3 * (i % 3));
    if s.contains(m) {
        let k = choose|k: int| 0 <= k < s.len() && s[k] == m;
        let q = local_moves(vs)[k];
        assert(local_moves(vs).contains(q));
        crate::local_board::lemma_local_moves_contains(vs, q);
        assert(m == pos_plus(q, corner));
        crate::common::lemma_div3(i / 3, q.row as int);
        crate::common::lemma_div3(i % 3, q.col as int);
        assert(m.row / 3 == i / 3 && m.row % 3 == q.row);
        assert(m.col / 3 == i % 3 && m.col % 3 == q.col);
        assert(spec_board_index(m) == 3 * (i / 3) + i % 3);
        assert(spec_board_index(m) == i);
        assert(spec_offset_of(m) == q);
    }
    if m.row < 9 && m.col < 9 && spec_board_index(m) == i && vs[spec_pos_to_index(
        spec_offset_of(m),
    )] == 0 {
        let q = spec_offset_of(m);
        crate::common::lemma_div3(m.row as int / 3, m.row as int % 3);
        crate::common::lemma_div3(m.col as int / 3, m.col as int % 3);
        assert(m.row / 3 < 3 && m.col / 3 < 3);
        crate::common::lemma_div3(m.row as int / 3, m.col as int / 3);
        assert(i / 3 == m.row / 3 && i % 3 == m.col / 3) by {
            assert(i == 3 * (m.row as int / 3) + m.col as int / 3);
        }
        assert(pos_plus(q, corner) == m);
        crate::local_board::lemma_local_moves_contains(vs, q);
        let k = choose|k: int| 0 <= k < local_moves(vs).len() && local_moves(vs)[k] == q;
        assert(s[k] == pos_plus(q, corner));
        assert(s.contains(m));
    }
}

/// The union of the open sub-boards' translated move lists below index `n`
/// holds exactly the in-range positions whose sub-board is open, has index
/// below `n`, and is empty at the addressed cell.
proof fn lemma_open_moves_contains(g: GlobalBoard, n: int, m: Position)
    requires
        g.wf(),
        0 <= n <= 9,
    ensures
        open_moves_below(g, n).contains(m) <==> (m.row < 9 && m.col < 9 && spec_board_index(m) < n
            && g.values@[spec_board_index(m)] == 0 && g.boards@[spec_board_index(
            m,
        )].board@[spec_pos_to_index(spec_offset_of(m))] == 0),
    decreases n,
{
    if n > 0 {
        lemma_open_moves_contains(g, n - 1, m);
        lemma_sub_moves_contains(g.boards@[n - 1].board@, n - 1, m);
        let prefix = open_moves_below(g, n - 1);
        let whole = open_moves_below(g, n);
        let part = if g.values@[n - 1] == 0 {
            shifted(local_moves(g.boards@[n - 1].board@), spec_corner_pos(n - 1))
        } else {
            Seq::<Position>::empty()
        };
        assert(whole == prefix + part);
        if whole.contains(m) {
            let k = choose|k: int| 0 <= k < whole.len() && whole[k] == m;
            if k < prefix.len() {
                assert(prefix[k] == m);
                assert(prefix.contains(m));
            } else {
                assert(part[k - prefix.len()] == m);
                assert(part.contains(m));
            }
        }
        if m.row < 9 && m.col < 9 && spec_board_index(m) < n && g.values@[spec_board_index(m)] == 0
            && g.boards@[spec_board_index(m)].board@[spec_pos_to_index(spec_offset_of(m))] == 0 {
            if spec_board_index(m) < n - 1 {
                let k = choose|k: int| 0 <= k < prefix.len() && prefix[k] == m;
                assert(whole[k] == m);
                assert(whole.contains(m));
            } else {
                let k = choose|k: int| 0 <= k < part.len() && part[k] == m;
                assert(whole[prefix.len() + k] == m);
                assert(whole.contains(m));
            }
        }
    }
}

/// Law: while the decided vector agrees with the sub-boards' winners, the
/// three sub-boards of a decided winning line individually report that
/// player as their winner.
pub proof fn lemma_global_line_boards(g: GlobalBoard, k: int, p: Player)
    requires
        g.wf(),
        outcomes_agree(g),
        0 <= k < 8,
        line_won_by(g.values@, k, p),
    ensures
        winner_of(g.boards@[crate::common::line_indexes(k).0].board@) == Some(p),
        winner_of(g.boards@[crate::common::line_indexes(k).1].board@) == Some(p),
        winner_of(g.boards@[crate::common::line_indexes(k).2].board@) == Some(p),
{
    let a = crate::common::line_indexes(k).0;
    let b = crate::common::line_indexes(k).1;
    let c = crate::common::line_indexes(k).2;
    assert(g.values@[a] != 0 && g.values@[b] != 0 && g.values@[c] != 0);
    assert(winner_of(g.boards@[a].board@) is Some);
    assert(winner_of(g.boards@[b].board@) is Some);
    assert(winner_of(g.boards@[c].board@) is Some);
}

/// Law: while the move constraint points at sub-board `i`, the move list
/// holds exactly the in-range positions that decompose to sub-board `i` and
/// an empty cell there.
pub proof fn lemma_moves_constrained(g: GlobalBoard, i: usize, m: Position)
    requires
        g.wf(),
        g.next_board == Some(i),
    ensures
        global_moves(g).contains(m) <==> (m.row < 9 && m.col < 9 && spec_board_index(m) == i
            && g.boards@[i as int].board@[spec_pos_to_index(spec_offset_of(m))] == 0),
{
    lemma_sub_moves_contains(g.boards@[i as int].board@, i as int, m);
}

/// Law: with no move constraint, the move list holds exactly the in-range
/// positions whose sub-board is still undecided and empty at the addressed
/// cell; decided sub-boards contribute nothing. On a fresh board this is all
/// 81 global positions.
pub proof fn lemma_moves_unconstrained(g: GlobalBoard, m: Position)
    requires
        g.wf(),
        g.next_board is None,
    ensures
        global_moves(g).contains(m) <==> (m.row < 9 && m.col < 9 && g.values@[spec_board_index(m)]
            == 0 && g.boards@[spec_board_index(m)].board@[spec_pos_to_index(spec_offset_of(m))]
            == 0),
{
    lemma_open_moves_contains(g, 9, m);
    if m.row < 9 && m.col < 9 {
        lemma_decompose(m);
    }
}

/// Law: while the move constraint points at sub-board `i`, every generated
/// move is that sub-board's corresponding local move translated by the
/// sub-board's corner, `spec_index_to_pos(i)` scaled by 3.
pub proof fn lemma_moves_translation(g: GlobalBoard, i: usize)
    requires
        g.wf(),
        g.next_board == Some(i),
    ensures
        global_moves(g).len() == local_moves(g.boards@[i as int].board@).len(),
        forall|k: int|
            0 <= k < global_moves(g).len() ==> #[trigger] global_moves(g)[k] == pos_plus(
                local_moves(g.boards@[i as int].board@)[k],
                spec_corner_pos(i as int),
            ),
        spec_corner_pos(i as int).row == spec_index_to_pos(i as int).row * 3,
        spec_corner_pos(i as int).col == spec_index_to_pos(i as int).col * 3,
{
}

/// Every move a sub-board generates lies inside the local 3x3 range.
pub proof fn lemma_local_moves_small(vs: Seq<i8>)
    ensures
        forall|k: int|
            0 <= k < local_moves(vs).len() ==> (#[trigger] local_moves(vs)[k]).row < 3
                && local_moves(vs)[k].col < 3,
{
    lemma_local_moves_below_small(vs, 9);
}

proof fn lemma_local_moves_below_small(vs: Seq<i8>, n: int)
    requires
        n <= 9,
    ensures
        forall|k: int|
            0 <= k < local_moves_below(vs, n).len() ==> (#[trigger] local_moves_below(vs, n)[k]).row
                < 3 && local_moves_below(vs, n)[k].col < 3,
    decreases n,
{
    if n > 0 {
        lemma_local_moves_below_small(vs, n - 1);
        let prefix = local_moves_below(vs, n - 1);
        let whole = local_moves_below(vs, n);
        assert(spec_index_to_pos(n - 1).row < 3 && spec_index_to_pos(n - 1).col < 3);
        assert forall|k: int| 0 <= k < whole.len() implies (#[trigger] whole[k]).row < 3
            && whole[k].col < 3 by {
            if k < prefix.len() {
                assert(whole[k] == prefix[k]);
            } else {
                assert(whole[k] == spec_index_to_pos(n - 1));
            }
        }
    }
}

} // verus!
