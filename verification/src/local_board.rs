use vstd::prelude::*;

use crate::common::{
    all_positive, cell_ok, compute_winner, index_to_pos, lemma_line_gives_winner,
    lemma_winner_none_iff, line_won_by, other_player, player_of_sign, player_to_sign,
    pos_to_index, sign_to_player, spec_index_to_pos, spec_pos_to_index, stored_value, valid_cells,
    weight, weight_for, winner_of, Board, Player, Position,
};

verus! {

/// One 3x3 sub-board: nine cell weights in row-major order, each zero when
/// empty or the cell's magic-square weight carrying the occupant's sign.
pub struct LocalBoard {
    pub board: Vec<i8>,
}

/// The weight vector after one write: the addressed cell replaced by the
/// stored value for the new occupant.
pub open spec fn local_set(vs: Seq<i8>, pos: Position, player: Option<Player>) -> Seq<i8> {
    vs.update(spec_pos_to_index(pos), stored_value(spec_pos_to_index(pos), player))
}

/// The occupant read back from one cell of a weight vector.
pub open spec fn local_cell(vs: Seq<i8>, pos: Position) -> Option<Player> {
    player_of_sign(vs[spec_pos_to_index(pos)] as int)
}

/// The positions of the empty cells among indexes below `n`, in index order.
pub open spec fn local_moves_below(vs: Seq<i8>, n: int) -> Seq<Position>
    decreases n,
{
    if n <= 0 {
        Seq::empty()
    } else {
        local_moves_below(vs, n - 1) + (if vs[n - 1] == 0 {
            seq![spec_index_to_pos(n - 1)]
        } else {
            Seq::empty()
        })
    }
}

/// The positions of all empty cells, in index order.
pub open spec fn local_moves(vs: Seq<i8>) -> Seq<Position> {
    local_moves_below(vs, 9)
}

impl LocalBoard {
    /// A sub-board with all nine cells empty.
    pub fn new() -> (b: LocalBoard)
        ensures
            b.wf(),
            b.board@.len() == 9,
            forall|i: int| 0 <= i < 9 ==> b.board@[i] == 0,
    {
        let mut board: Vec<i8> = Vec::with_capacity(9);
        let mut i: usize = 0;
        while i < 9
            invariant
                i <= 9,
                board@.len() == i,
                forall|j: int| 0 <= j < i ==> board@[j] == 0,
            decreases 9 - i,
        {
            board.push(0);
            i = i + 1;
        }
        LocalBoard { board }
    }
}

impl Board for LocalBoard {
    open spec fn wf(&self) -> bool {
        valid_cells(self.board@)
    }

    open spec fn in_bounds(&self, pos: Position) -> bool {
        pos.row < 3 && pos.col < 3
    }

    open spec fn the_winner(&self) -> Option<Player> {
        winner_of(self.board@)
    }

    open spec fn cell(&self, pos: Position) -> Option<Player> {
        local_cell(self.board@, pos)
    }

    open spec fn moves(&self) -> Seq<Position> {
        local_moves(self.board@)
    }

    open spec fn done(&self) -> bool {
        all_positive(self.board@)
    }

    open spec fn set_rel(pre: Self, post: Self, pos: Position, player: Option<Player>) -> bool {
        post.board@ == local_set(pre.board@, pos, player)
    }

    fn winner(&self) -> Option<Player> {
        proof {
            lemma_valid_cells_bounded(self.board@);
        }
        compute_winner(&self.board)
    }

    fn set_pos(&mut self, pos: Position, player: Option<Player>) {
        let index = pos_to_index(&pos);
        let value: i8 = match player {
            None => 0,
            Some(p) => {
                let w = weight_for(index);
                let s = player_to_sign(&p);
                proof {
                    lemma_signed_weight(index as int, p);
                }
                w * s
            },
        };
        self.board[index] = value;
    }

    fn get_pos(&self, pos: Position) -> Option<Player> {
        let index = pos_to_index(&pos);
        sign_to_player(self.board[index])
    }

    fn get_moves(&self) -> Vec<Position> {
        let mut result: Vec<Position> = Vec::new();
        let mut i: usize = 0;
        while i < 9
            invariant
                i <= 9,
                self.board@.len() == 9,
                result@ == local_moves_below(self.board@, i as int),
            decreases 9 - i,
        {
            if self.board[i] == 0 {
                result.push(index_to_pos(i));
            }
            i = i + 1;
            assert(result@ =~= local_moves_below(self.board@, i as int));
        }
        result
    }

    fn finished(&self) -> bool {
        let mut i: usize = 0;
        while i < 9
            invariant
                i <= 9,
                self.board@.len() == 9,
                forall|j: int| 0 <= j < i ==> self.board@[j] > 0,
            decreases 9 - i,
        {
            if self.board[i] <= 0 {
                return false;
            }
            i = i + 1;
        }
        true
    }
}

/// A well-formed weight vector holds only values of magnitude at most 9.
pub proof fn lemma_valid_cells_bounded(vs: Seq<i8>)
    requires
        valid_cells(vs),
    ensures
        forall|i: int| 0 <= i < 9 ==> -9 <= #[trigger] vs[i] <= 9,
{
    assert forall|i: int| 0 <= i < 9 implies -9 <= #[trigger] vs[i] <= 9 by {
        assert(cell_ok(vs[i], i));
    }
}

/// Law: the move list of a sub-board holds exactly the in-range positions of
/// its empty cells.
pub proof fn lemma_local_moves_contains(vs: Seq<i8>, q: Position)
    requires
        vs.len() == 9,
    ensures
        local_moves(vs).contains(q) <==> (q.row < 3 && q.col < 3 && vs[spec_pos_to_index(q)]
            == 0),
{
    lemma_local_moves_below_contains(vs, 9, q);
}

proof fn lemma_local_moves_below_contains(vs: Seq<i8>, n: int, q: Position)
    requires
        vs.len() == 9,
        0 <= n <= 9,
    ensures
        local_moves_below(vs, n).contains(q) <==> (q.row < 3 && q.col < 3 && spec_pos_to_index(q)
            < n && vs[spec_pos_to_index(q)] == 0),
    decreases n,
{
    if n > 0 {
        lemma_local_moves_below_contains(vs, n - 1, q);
        let prefix = local_moves_below(vs, n - 1);
        let whole = local_moves_below(vs, n);
        let e = spec_index_to_pos(n - 1);
        crate::common::lemma_index_pos_round_trip(n - 1);
        if whole.contains(q) {
            let k = choose|k: int| 0 <= k < whole.len() && whole[k] == q;
            if k < prefix.len() {
                assert(prefix[k] == q);
                assert(prefix.contains(q));
            } else {
                assert(q == e);
            }
        }
        if q.row < 3 && q.col < 3 && spec_pos_to_index(q) < n && vs[spec_pos_to_index(q)] == 0 {
            if spec_pos_to_index(q) < n - 1 {
                let k = choose|k: int| 0 <= k < prefix.len() && prefix[k] == q;
                assert(whole[k] == q);
                assert(whole.contains(q));
            } else {
                crate::common::lemma_pos_index_round_trip(q);
                assert(q == e);
                assert(whole[prefix.len() as int] == q);
                assert(whole.contains(q));
            }
        }
    }
}

/// A single write keeps a weight vector well-formed: it stores zero or the
/// addressed cell's own signed weight.
pub proof fn lemma_local_set_valid(vs: Seq<i8>, pos: Position, player: Option<Player>)
    requires
        valid_cells(vs),
        pos.row < 3,
        pos.col < 3,
    ensures
        valid_cells(local_set(vs, pos, player)),
{
    match player {
        Some(p) => lemma_signed_weight(spec_pos_to_index(pos), p),
        None => {},
    }
}

/// Law: a write is read back exactly, both for placing a mark and for
/// clearing one, and it leaves every other cell untouched.
pub proof fn lemma_local_write_read(vs: Seq<i8>, p: Position, q: Position, player: Option<Player>)
    requires
        vs.len() == 9,
        p.row < 3,
        p.col < 3,
        q.row < 3,
        q.col < 3,
    ensures
        local_cell(local_set(vs, p, player), p) == player,
        p != q ==> local_cell(local_set(vs, p, player), q) == local_cell(vs, q),
{
    match player {
        Some(pl) => lemma_signed_weight(spec_pos_to_index(p), pl),
        None => {},
    }
}

/// Law: a line fully occupied by one player makes that player the sub-board's
/// winner, as long as the opponent holds no full line of their own.
pub proof fn lemma_local_line_win(b: LocalBoard, k: int, p: Player)
    requires
        b.wf(),
        0 <= k < 8,
        line_won_by(b.board@, k, p),
        forall|j: int| 0 <= j < 8 ==> !#[trigger] line_won_by(b.board@, j, other_player(p)),
    ensures
        b.the_winner() == Some(p),
{
    lemma_line_gives_winner(b.board@, k, p);
}

/// Law: a sub-board reports no winner exactly when no line is fully occupied
/// by a single player; in particular any mixed occupancy of a full line wins
/// nothing.
pub proof fn lemma_local_no_winner(b: LocalBoard)
    requires
        b.wf(),
    ensures
        (b.the_winner() is None) <==> (forall|k: int, p: Player|
            0 <= k < 8 ==> !#[trigger] line_won_by(b.board@, k, p)),
{
    lemma_winner_none_iff(b.board@);
}

/// The signed weight of any cell for any player fits the stored encoding:
/// its magnitude is the cell's weight, its sign the player's.
pub proof fn lemma_signed_weight(i: int, p: Player)
    requires
        0 <= i < 9,
    ensures
        stored_value(i, Some(p)) as int == weight(i) * crate::common::sign_of(p),
        p == Player::O ==> stored_value(i, Some(p)) as int == weight(i),
        p == Player::X ==> stored_value(i, Some(p)) as int == -weight(i),
        cell_ok(stored_value(i, Some(p)), i),
{
}

} // verus!
