use vstd::prelude::*;

use crate::board::{
    abs, aligned, applicable, at, file_diff, first_king, is_after, is_king_at, is_start,
    king_square, moved, passed_pawn_square, path_clear, rank_diff, ray, rook_from, rook_to,
    squares_after, start_at, Board,
};
use crate::piece::{Color, Move, Piece, PieceType, Position};

verus! {

pub open spec fn knight_jump(from: Position, to: Position) -> bool {
    (abs(file_diff(from, to)) == 2 && abs(rank_diff(from, to)) == 1) || (abs(file_diff(from, to))
        == 1 && abs(rank_diff(from, to)) == 2)
}

pub open spec fn king_step(from: Position, to: Position) -> bool {
    abs(file_diff(from, to)) <= 1 && abs(rank_diff(from, to)) <= 1
}

pub open spec fn straight(from: Position, to: Position) -> bool {
    file_diff(from, to) == 0 || rank_diff(from, to) == 0
}

pub open spec fn diagonal(from: Position, to: Position) -> bool {
    abs(file_diff(from, to)) == abs(rank_diff(from, to))
}

/// A piece standing on `from` attacks `to`. A pawn attacks the two squares
/// diagonally ahead of it, never the square in front.
pub open spec fn can_attack(sq: Seq<Option<Piece>>, pc: Piece, from: Position, to: Position) -> bool {
    &&& from != to
    &&& match pc.piece_type {
        PieceType::Pawn => abs(file_diff(from, to)) == 1 && rank_diff(from, to)
            == pc.color.forward(),
        PieceType::Rook => straight(from, to) && path_clear(sq, from, to),
        PieceType::Knight => knight_jump(from, to),
        PieceType::Bishop => diagonal(from, to) && path_clear(sq, from, to),
        PieceType::Queen => aligned(from, to) && path_clear(sq, from, to),
        PieceType::King => king_step(from, to),
    }
}

/// The piece on `p` belongs to `by` and attacks `target`.
pub open spec fn attacks(sq: Seq<Option<Piece>>, p: Position, target: Position, by: Color) -> bool {
    &&& p.valid()
    &&& at(sq, p) is Some
    &&& at(sq, p)->0.color == by
    &&& can_attack(sq, at(sq, p)->0, p, target)
}

pub open spec fn attacked(sq: Seq<Option<Piece>>, target: Position, by: Color) -> bool {
    exists|p: Position| #[trigger] attacks(sq, p, target, by)
}

/// The king of `c` (the first one, in a1..h8 order) is attacked.
pub open spec fn in_check(sq: Seq<Option<Piece>>, c: Color) -> bool {
    match king_square(sq, c) {
        Some(k) => attacked(sq, k, c.other()),
        None => false,
    }
}

/// A pawn that reaches its last rank names a kind to become, and no other
/// move names one.
pub open spec fn promotion_ok(p: Piece, m: Move) -> bool {
    if p.piece_type == PieceType::Pawn && m.to.rank == p.color.last_rank() {
        m.promotion matches Some(k) && k.is_promotion_kind()
    } else {
        m.promotion is None
    }
}

/// The square a pawn's two-square advance passes over.
pub open spec fn skipped(m: Move, p: Piece) -> Position {
    Position { file: m.from.file, rank: (m.from.rank + p.color.forward()) as u8 }
}

pub open spec fn en_passant_ok(b: Board, m: Move, p: Piece) -> bool {
    let sq = b.squares@;
    let victim = at(sq, passed_pawn_square(m));
    &&& b.en_passant_target == Some(m.to)
    &&& abs(file_diff(m.from, m.to)) == 1
    &&& rank_diff(m.from, m.to) == p.color.forward()
    &&& victim is Some
    &&& victim->0.piece_type == PieceType::Pawn
    &&& victim->0.color == p.color.other()
}

pub open spec fn pawn_move_ok(b: Board, m: Move, p: Piece) -> bool {
    let sq = b.squares@;
    let df = file_diff(m.from, m.to);
    let dr = rank_diff(m.from, m.to);
    let dir = p.color.forward();
    if m.is_en_passant {
        en_passant_ok(b, m, p)
    } else {
        ||| (df == 0 && dr == dir && at(sq, m.to) is None)
        ||| (df == 0 && dr == 2 * dir && !p.has_moved && at(sq, m.to) is None && at(
            sq,
            skipped(m, p),
        ) is None)
        ||| (abs(df) == 1 && dr == dir && at(sq, m.to) is Some && at(sq, m.to)->0.color
            == p.color.other())
    }
}

/// Castling: an unmoved king on its home square goes two files toward an
/// unmoved rook of its own on the corner, with the right still held, every
/// square between them empty, and none of the three squares the king stands
/// on, crosses or reaches attacked.
pub open spec fn castle_ok(b: Board, m: Move, p: Piece) -> bool {
    let sq = b.squares@;
    let kingside = m.to.file > m.from.file;
    let rook = at(sq, rook_from(m));
    &&& !p.has_moved
    &&& m.from.file == 4
    &&& m.from.rank == p.color.home_rank()
    &&& m.to.rank == m.from.rank
    &&& (m.to.file == 6 || m.to.file == 2)
    &&& b.castling_rights.allows(p.color, kingside)
    &&& rook is Some
    &&& rook->0.piece_type == PieceType::Rook
    &&& rook->0.color == p.color
    &&& !rook->0.has_moved
    &&& path_clear(sq, m.from, rook_from(m))
    &&& !attacked(sq, m.from, p.color.other())
    &&& !attacked(sq, rook_to(m), p.color.other())
    &&& !attacked(sq, m.to, p.color.other())
}

/// The move has the shape that the piece on its first square may make.
pub open spec fn shape_ok(b: Board, m: Move, p: Piece) -> bool {
    let sq = b.squares@;
    &&& promotion_ok(p, m)
    &&& match p.piece_type {
        PieceType::Pawn => !m.is_castle && pawn_move_ok(b, m, p),
        PieceType::King => !m.is_en_passant && if m.is_castle {
            castle_ok(b, m, p)
        } else {
            king_step(m.from, m.to)
        },
        PieceType::Rook => !m.is_castle && !m.is_en_passant && straight(m.from, m.to)
            && path_clear(sq, m.from, m.to),
        PieceType::Knight => !m.is_castle && !m.is_en_passant && knight_jump(m.from, m.to),
        PieceType::Bishop => !m.is_castle && !m.is_en_passant && diagonal(m.from, m.to)
            && path_clear(sq, m.from, m.to),
        PieceType::Queen => !m.is_castle && !m.is_en_passant && aligned(m.from, m.to)
            && path_clear(sq, m.from, m.to),
    }
}

/// A legal move: both squares on the board and distinct, a piece of the side
/// to move on the first, no piece of its own on the second, the shape its
/// piece allows, and its own king not in check afterwards.
pub open spec fn valid_move(b: Board, m: Move) -> bool {
    let sq = b.squares@;
    let p = at(sq, m.from)->0;
    &&& m.from.valid()
    &&& m.to.valid()
    &&& m.from != m.to
    &&& at(sq, m.from) is Some
    &&& p.color == b.to_move
    &&& !(at(sq, m.to) is Some && at(sq, m.to)->0.color == p.color)
    &&& shape_ok(b, m, p)
    &&& !in_check(squares_after(sq, m), b.to_move)
}

pub open spec fn has_legal_move(b: Board) -> bool {
    exists|m: Move| #[trigger] valid_move(b, m)
}

pub open spec fn checkmate(b: Board) -> bool {
    in_check(b.squares@, b.to_move) && !has_legal_move(b)
}

pub open spec fn stalemate(b: Board) -> bool {
    !in_check(b.squares@, b.to_move) && !has_legal_move(b)
}

/// Rank of a promotion choice in the order candidates are tried.
pub open spec fn promotion_rank(k: Option<PieceType>) -> int {
    match k {
        None => 0,
        Some(PieceType::Queen) => 1,
        Some(PieceType::Rook) => 2,
        Some(PieceType::Bishop) => 3,
        Some(PieceType::Knight) => 4,
        Some(_) => 5,
    }
}

/// Rank of a move's flags in the order candidates are tried.
pub open spec fn flag_rank(m: Move) -> int {
    if m.is_castle && m.is_en_passant {
        3
    } else if m.is_castle {
        1
    } else if m.is_en_passant {
        2
    } else {
        0
    }
}

pub open spec fn square_before(p: Position, rank: u8, file: u8) -> bool {
    p.rank < rank || (p.rank == rank && p.file < file)
}

fn promotion_choice(i: u8) -> (r: Option<PieceType>)
    requires
        i < 5,
    ensures
        promotion_rank(r) == i,
{
    match i {
        0 => None,
        1 => Some(PieceType::Queen),
        2 => Some(PieceType::Rook),
        3 => Some(PieceType::Bishop),
        _ => Some(PieceType::Knight),
    }
}

fn absdiff(a: u8, b: u8) -> (r: u8)
    ensures
        r == abs(b as int - a as int),
{
    if a > b {
        a - b
    } else {
        b - a
    }
}

/// The move-legality rules of chess over a `Board`.
pub struct MoveValidator;

impl MoveValidator {
    pub fn is_valid_move(board: &Board, chess_move: &Move) -> (r: bool)
        ensures
            r == valid_move(*board, *chess_move),
    {
        let m = *chess_move;
        if !m.from.is_valid() || !m.to.is_valid() {
            return false;
        }
        if m.from == m.to {
            return false;
        }
        let piece = match board.get_piece(m.from) {
            Some(p) => p,
            None => {
                return false;
            },
        };
        if piece.color != board.get_to_move() {
            return false;
        }
        if board.is_occupied_by(m.to, piece.color) {
            return false;
        }
        if !Self::is_piece_move_valid(board, &m, &piece) {
            return false;
        }
        !Self::would_be_in_check_after_move(board, &m)
    }

    fn is_piece_move_valid(board: &Board, chess_move: &Move, piece: &Piece) -> (r: bool)
        requires
            chess_move.from.valid(),
            chess_move.to.valid(),
            at(board.squares@, chess_move.from) == Some(*piece),
        ensures
            r == shape_ok(*board, *chess_move, *piece),
    {
        let m = chess_move;
        let promotion_fits = match piece.piece_type {
            PieceType::Pawn => {
                let last: u8 = match piece.color {
                    Color::White => 7,
                    Color::Black => 0,
                };
                if m.to.rank == last {
                    match m.promotion {
                        Some(k) => match k {
                            PieceType::Queen | PieceType::Rook | PieceType::Bishop
                            | PieceType::Knight => true,
                            _ => false,
                        },
                        None => false,
                    }
                } else {
                    m.promotion.is_none()
                }
            },
            _ => m.promotion.is_none(),
        };
        if !promotion_fits {
            return false;
        }
        match piece.piece_type {
            PieceType::Pawn => !m.is_castle && Self::is_valid_pawn_move(board, m, piece),
            PieceType::King => !m.is_en_passant && Self::is_valid_king_move(board, m, piece),
            PieceType::Rook => !m.is_castle && !m.is_en_passant && Self::is_valid_rook_move(
                board,
                m,
            ),
            PieceType::Knight => !m.is_castle && !m.is_en_passant && Self::is_valid_knight_move(
                m,
            ),
            PieceType::Bishop => !m.is_castle && !m.is_en_passant && Self::is_valid_bishop_move(
                board,
                m,
            ),
            PieceType::Queen => !m.is_castle && !m.is_en_passant && Self::is_valid_queen_move(
                board,
                m,
            ),
        }
    }

    fn is_valid_pawn_move(board: &Board, chess_move: &Move, piece: &Piece) -> (r: bool)
        requires
            chess_move.from.valid(),
            chess_move.to.valid(),
            at(board.squares@, chess_move.from) == Some(*piece),
        ensures
            r == pawn_move_ok(*board, *chess_move, *piece),
    {
        if chess_move.is_en_passant {
            return Self::is_valid_en_passant(board, chess_move, piece);
        }
        let from = chess_move.from;
        let to = chess_move.to;
        let df: i16 = to.file as i16 - from.file as i16;
        let dr: i16 = to.rank as i16 - from.rank as i16;
        let dir: i16 = match piece.color {
            Color::White => 1,
            Color::Black => -1,
        };
        if df == 0 {
            if dr == dir && board.is_empty(to) {
                return true;
            }
            if dr == 2 * dir && !piece.has_moved && board.is_empty(to) {
                let mid = Position { file: from.file, rank: (from.rank as i16 + dir) as u8 };
                assert(mid == crate::rules::skipped(*chess_move, *piece));
                return board.is_empty(mid);
            }
            false
        } else if (df == 1 || df == -1) && dr == dir {
            board.is_occupied_by(to, piece.color.opposite())
        } else {
            false
        }
    }

    fn is_valid_en_passant(board: &Board, chess_move: &Move, piece: &Piece) -> (r: bool)
        requires
            chess_move.from.valid(),
            chess_move.to.valid(),
        ensures
            r == en_passant_ok(*board, *chess_move, *piece),
    {
        let from = chess_move.from;
        let to = chess_move.to;
        match board.get_en_passant_target() {
            Some(target) => {
                if target != to {
                    return false;
                }
            },
            None => {
                return false;
            },
        }
        let df: i16 = to.file as i16 - from.file as i16;
        let dr: i16 = to.rank as i16 - from.rank as i16;
        let dir: i16 = match piece.color {
            Color::White => 1,
            Color::Black => -1,
        };
        if !((df == 1 || df == -1) && dr == dir) {
            return false;
        }
        let captured = Position { file: to.file, rank: from.rank };
        match board.get_piece(captured) {
            Some(victim) => victim.piece_type == PieceType::Pawn && victim.color
                == piece.color.opposite(),
            None => false,
        }
    }

    fn is_valid_rook_move(board: &Board, chess_move: &Move) -> (r: bool)
        requires
            chess_move.from.valid(),
            chess_move.to.valid(),
        ensures
            r == (straight(chess_move.from, chess_move.to) && path_clear(
                board.squares@,
                chess_move.from,
                chess_move.to,
            )),
    {
        let from = chess_move.from;
        let to = chess_move.to;
        if from.file != to.file && from.rank != to.rank {
            return false;
        }
        board.is_path_clear(from, to)
    }

    fn is_valid_knight_move(chess_move: &Move) -> (r: bool)
        ensures
            r == knight_jump(chess_move.from, chess_move.to),
    {
        let fd = absdiff(chess_move.from.file, chess_move.to.file);
        let rd = absdiff(chess_move.from.rank, chess_move.to.rank);
        (fd == 2 && rd == 1) || (fd == 1 && rd == 2)
    }

    fn is_valid_bishop_move(board: &Board, chess_move: &Move) -> (r: bool)
        requires
            chess_move.from.valid(),
            chess_move.to.valid(),
        ensures
            r == (diagonal(chess_move.from, chess_move.to) && path_clear(
                board.squares@,
                chess_move.from,
                chess_move.to,
            )),
    {
        let fd = absdiff(chess_move.from.file, chess_move.to.file);
        let rd = absdiff(chess_move.from.rank, chess_move.to.rank);
        if fd != rd {
            return false;
        }
        board.is_path_clear(chess_move.from, chess_move.to)
    }

    fn is_valid_queen_move(board: &Board, chess_move: &Move) -> (r: bool)
        requires
            chess_move.from.valid(),
            chess_move.to.valid(),
        ensures
            r == (aligned(chess_move.from, chess_move.to) && path_clear(
                board.squares@,
                chess_move.from,
                chess_move.to,
            )),
    {
        Self::is_valid_rook_move(board, chess_move) || Self::is_valid_bishop_move(
            board,
            chess_move,
        )
    }

    fn is_valid_king_move(board: &Board, chess_move: &Move, piece: &Piece) -> (r: bool)
        requires
            chess_move.from.valid(),
            chess_move.to.valid(),
            at(board.squares@, chess_move.from) == Some(*piece),
        ensures
            r == (if chess_move.is_castle {
                castle_ok(*board, *chess_move, *piece)
            } else {
                king_step(chess_move.from, chess_move.to)
            }),
    {
        if chess_move.is_castle {
            return Self::is_valid_castle(board, chess_move, piece);
        }
        let fd = absdiff(chess_move.from.file, chess_move.to.file);
        let rd = absdiff(chess_move.from.rank, chess_move.to.rank);
        fd <= 1 && rd <= 1
    }

    fn is_valid_castle(board: &Board, chess_move: &Move, piece: &Piece) -> (r: bool)
        requires
            chess_move.from.valid(),
            chess_move.to.valid(),
        ensures
            r == castle_ok(*board, *chess_move, *piece),
    {
        let m = chess_move;
        if piece.has_moved {
            return false;
        }
        let home: u8 = match piece.color {
            Color::White => 0,
            Color::Black => 7,
        };
        if m.from.file != 4 || m.from.rank != home || m.to.rank != m.from.rank {
            return false;
        }
        if m.to.file != 6 && m.to.file != 2 {
            return false;
        }
        let kingside = m.to.file > m.from.file;
        let rights = board.get_castling_rights();
        let has_right = match (piece.color, kingside) {
            (Color::White, true) => rights.white_kingside,
            (Color::White, false) => rights.white_queenside,
            (Color::Black, true) => rights.black_kingside,
            (Color::Black, false) => rights.black_queenside,
        };
        if !has_right {
            return false;
        }
        let rook_pos = Position { file: if kingside { 7 } else { 0 }, rank: m.from.rank };
        let through = Position { file: if kingside { 5 } else { 3 }, rank: m.from.rank };
        assert(rook_pos == rook_from(*m) && through == rook_to(*m));
        match board.get_piece(rook_pos) {
            Some(rook) => {
                if rook.piece_type != PieceType::Rook || rook.color != piece.color
                    || rook.has_moved {
                    return false;
                }
            },
            None => {
                return false;
            },
        }
        if !board.is_path_clear(m.from, rook_pos) {
            return false;
        }
        let enemy = piece.color.opposite();
        !Self::is_square_attacked(board, m.from, enemy) && !Self::is_square_attacked(
            board,
            through,
            enemy,
        ) && !Self::is_square_attacked(board, m.to, enemy)
    }

    /// Whether the king of `color` is attacked.
    pub fn is_in_check(board: &Board, color: Color) -> (r: bool)
        ensures
            r == in_check(board.squares@, color),
    {
        match board.find_king(color) {
            Some(king_pos) => {
                proof {
                    let k = choose|p: Position| crate::board::first_king(board.squares@, color, p);
                    assert(crate::board::first_king(board.squares@, color, k));
                }
                Self::is_square_attacked(board, king_pos, color.opposite())
            },
            None => false,
        }
    }

    /// Whether a piece of `by_color` attacks the square `pos`.
    pub fn is_square_attacked(board: &Board, pos: Position, by_color: Color) -> (r: bool)
        requires
            pos.valid(),
        ensures
            r == attacked(board.squares@, pos, by_color),
    {
        let ghost sq = board.squares@;
        let mut rank: u8 = 0;
        while rank < 8
            invariant
                rank <= 8,
                pos.valid(),
                sq == board.squares@,
                forall|q: Position|
                    q.valid() && q.rank < rank ==> !#[trigger] attacks(sq, q, pos, by_color),
            decreases 8 - rank,
        {
            let mut file: u8 = 0;
            while file < 8
                invariant
                    rank < 8,
                    file <= 8,
                    pos.valid(),
                    sq == board.squares@,
                    forall|q: Position|
                        q.valid() && (q.rank < rank || (q.rank == rank && q.file < file))
                            ==> !#[trigger] attacks(sq, q, pos, by_color),
                decreases 8 - file,
            {
                let from = Position { file, rank };
                match board.get_piece(from) {
                    Some(piece) => {
                        if piece.color == by_color {
                            let attack = Move::new(from, pos);
                            if Self::can_piece_attack(board, &attack, &piece) {
                                assert(attacks(sq, from, pos, by_color));
                                return true;
                            }
                        }
                    },
                    None => {},
                }
                file = file + 1;
            }
            rank = rank + 1;
        }
        assert forall|q: Position| !#[trigger] attacks(sq, q, pos, by_color) by {
            if q.valid() {
                assert(q.rank < 8);
            }
        }
        false
    }

    fn can_piece_attack(board: &Board, chess_move: &Move, piece: &Piece) -> (r: bool)
        requires
            chess_move.from.valid(),
            chess_move.to.valid(),
        ensures
            r == can_attack(board.squares@, *piece, chess_move.from, chess_move.to),
    {
        if chess_move.from == chess_move.to {
            return false;
        }
        match piece.piece_type {
            PieceType::Pawn => Self::can_pawn_attack(chess_move, piece),
            PieceType::Rook => Self::is_valid_rook_move(board, chess_move),
            PieceType::Knight => Self::is_valid_knight_move(chess_move),
            PieceType::Bishop => Self::is_valid_bishop_move(board, chess_move),
            PieceType::Queen => Self::is_valid_queen_move(board, chess_move),
            PieceType::King => {
                let fd = absdiff(chess_move.from.file, chess_move.to.file);
                let rd = absdiff(chess_move.from.rank, chess_move.to.rank);
                fd <= 1 && rd <= 1
            },
        }
    }

    fn can_pawn_attack(chess_move: &Move, piece: &Piece) -> (r: bool)
        ensures
            r == (abs(file_diff(chess_move.from, chess_move.to)) == 1 && rank_diff(
                chess_move.from,
                chess_move.to,
            ) == piece.color.forward()),
    {
        let fd = absdiff(chess_move.from.file, chess_move.to.file);
        let dr: i16 = chess_move.to.rank as i16 - chess_move.from.rank as i16;
        let dir: i16 = match piece.color {
            Color::White => 1,
            Color::Black => -1,
        };
        fd == 1 && dr == dir
    }

    /// Plays the move on a copy of the board and asks whether the mover's king
    /// is then attacked.
    fn would_be_in_check_after_move(board: &Board, chess_move: &Move) -> (r: bool)
        requires
            applicable(*board, *chess_move),
        ensures
            r == in_check(squares_after(board.squares@, *chess_move), board.to_move),
    {
        let mut test_board = *board;
        match test_board.make_move(chess_move) {
            Ok(()) => Self::is_in_check(&test_board, board.get_to_move()),
            Err(_) => true,
        }
    }

    /// Appends every legal move from `from` to `to`.
    fn collect_pair(board: &Board, from: Position, to: Position, moves: &mut Vec<Move>)
        requires
            from.valid(),
            to.valid(),
        ensures
            forall|m: Move|
                #![trigger final(moves)@.contains(m)]
                final(moves)@.contains(m) <==> (old(moves)@.contains(m) || (m.from == from
                    && m.to == to && valid_move(*board, m))),
    {
        let mut pi: u8 = 0;
        while pi < 5
            invariant
                pi <= 5,
                from.valid(),
                to.valid(),
                forall|m: Move|
                    #![trigger moves@.contains(m)]
                    moves@.contains(m) <==> (old(moves)@.contains(m) || (m.from == from && m.to
                        == to && valid_move(*board, m) && promotion_rank(m.promotion) < pi)),
            decreases 5 - pi,
        {
            let promotion = promotion_choice(pi);
            let mut fi: u8 = 0;
            while fi < 3
                invariant
                    pi < 5,
                    fi <= 3,
                    promotion_rank(promotion) == pi,
                    forall|m: Move|
                        #![trigger moves@.contains(m)]
                        moves@.contains(m) <==> (old(moves)@.contains(m) || (m.from == from && m.to
                            == to && valid_move(*board, m) && (promotion_rank(m.promotion) < pi
                            || (promotion_rank(m.promotion) == pi && flag_rank(m) < fi)))),
                decreases 3 - fi,
            {
                let candidate = Move {
                    from,
                    to,
                    promotion,
                    is_castle: fi == 1,
                    is_en_passant: fi == 2,
                };
                let ghost before = moves@;
                if Self::is_valid_move(board, &candidate) {
                    moves.push(candidate);
                }
                proof {
                    assert forall|m: Move| #![trigger moves@.contains(m)]
                        moves@.contains(m) <==> (old(moves)@.contains(m) || (m.from == from
                            && m.to == to && valid_move(*board, m) && (promotion_rank(m.promotion)
                            < pi || (promotion_rank(m.promotion) == pi && flag_rank(m) < fi
                            + 1)))) by {
                        if m.from == from && m.to == to && promotion_rank(m.promotion) == pi
                            && flag_rank(m) == fi && valid_move(*board, m) {
                            assert(m.promotion == promotion);
                            assert(m == candidate);
                            assert(moves@.last() == m);
                        }
                        if moves@.contains(m) && !before.contains(m) {
                            assert(m == candidate);
                        }
                        if before.contains(m) {
                            let j = choose|j: int| 0 <= j < before.len() && before[j] == m;
                            assert(moves@[j] == m);
                        }
                    }
                }
                fi = fi + 1;
            }
            proof {
                assert forall|m: Move| #![trigger moves@.contains(m)]
                    moves@.contains(m) <==> (old(moves)@.contains(m) || (m.from == from && m.to
                        == to && valid_move(*board, m) && promotion_rank(m.promotion) < pi + 1)) by {
                    if m.from == from && m.to == to && valid_move(*board, m)
                        && promotion_rank(m.promotion) == pi {
                        assert(flag_rank(m) < 3);
                    }
                }
            }
            pi = pi + 1;
        }
        proof {
            assert forall|m: Move| #![trigger moves@.contains(m)]
                moves@.contains(m) <==> (old(moves)@.contains(m) || (m.from == from && m.to == to
                    && valid_move(*board, m))) by {
                if m.from == from && m.to == to && valid_move(*board, m) {
                    assert(promotion_rank(m.promotion) < 5);
                }
            }
        }
    }

    /// Appends every legal move of the piece on `from`.
    fn collect_from(board: &Board, from: Position, moves: &mut Vec<Move>)
        requires
            from.valid(),
        ensures
            forall|m: Move|
                #![trigger final(moves)@.contains(m)]
                final(moves)@.contains(m) <==> (old(moves)@.contains(m) || (m.from == from
                    && valid_move(*board, m))),
    {
        let mut rank: u8 = 0;
        while rank < 8
            invariant
                rank <= 8,
                from.valid(),
                forall|m: Move|
                    #![trigger moves@.contains(m)]
                    moves@.contains(m) <==> (old(moves)@.contains(m) || (m.from == from
                        && valid_move(*board, m) && m.to.rank < rank)),
            decreases 8 - rank,
        {
            let mut file: u8 = 0;
            while file < 8
                invariant
                    rank < 8,
                    file <= 8,
                    from.valid(),
                    forall|m: Move|
                        #![trigger moves@.contains(m)]
                        moves@.contains(m) <==> (old(moves)@.contains(m) || (m.from == from
                            && valid_move(*board, m) && square_before(m.to, rank, file))),
                decreases 8 - file,
            {
                let to = Position { file, rank };
                Self::collect_pair(board, from, to, moves);
                assert forall|m: Move| #![trigger moves@.contains(m)]
                    moves@.contains(m) <==> (old(moves)@.contains(m) || (m.from == from
                        && valid_move(*board, m) && square_before(m.to, rank, (file + 1) as u8))) by {
                    if m.to.rank == rank && m.to.file == file {
                        assert(m.to == to);
                    }
                }
                file = file + 1;
            }
            rank = rank + 1;
        }
    }

    /// Every legal move of the side to move, each once.
    pub fn generate_legal_moves(board: &Board) -> (r: Vec<Move>)
        ensures
            forall|m: Move| #![trigger r@.contains(m)] r@.contains(m) <==> valid_move(*board, m),
    {
        let mut moves: Vec<Move> = Vec::new();
        let current_color = board.get_to_move();
        let mut rank: u8 = 0;
        while rank < 8
            invariant
                rank <= 8,
                current_color == board.to_move,
                forall|m: Move|
                    #![trigger moves@.contains(m)]
                    moves@.contains(m) <==> (valid_move(*board, m) && m.from.rank < rank),
            decreases 8 - rank,
        {
            let mut file: u8 = 0;
            while file < 8
                invariant
                    rank < 8,
                    file <= 8,
                    current_color == board.to_move,
                    forall|m: Move|
                        #![trigger moves@.contains(m)]
                        moves@.contains(m) <==> (valid_move(*board, m) && square_before(
                            m.from,
                            rank,
                            file,
                        )),
                decreases 8 - file,
            {
                let from = Position { file, rank };
                let ghost before = moves@;
                if board.is_occupied_by(from, current_color) {
                    Self::collect_from(board, from, &mut moves);
                }
                assert forall|m: Move| #![trigger moves@.contains(m)]
                    moves@.contains(m) <==> (valid_move(*board, m) && square_before(
                        m.from,
                        rank,
                        (file + 1) as u8,
                    )) by {
                    if m.from.rank == rank && m.from.file == file {
                        assert(m.from == from);
                    }
                }
                file = file + 1;
            }
            rank = rank + 1;
        }
        moves
    }

    /// The side to move is in check and has no legal move.
    pub fn is_checkmate(board: &Board) -> (r: bool)
        ensures
            r == checkmate(*board),
    {
        let moves = Self::generate_legal_moves(board);
        proof {
            if moves.len() > 0 {
                assert(moves@.contains(moves@[0]));
            }
            if has_legal_move(*board) {
                let m = choose|m: Move| valid_move(*board, m);
                assert(moves@.contains(m));
            }
        }
        Self::is_in_check(board, board.get_to_move()) && moves.len() == 0
    }

    /// The side to move is not in check and has no legal move.
    pub fn is_stalemate(board: &Board) -> (r: bool)
        ensures
            r == stalemate(*board),
    {
        let moves = Self::generate_legal_moves(board);
        proof {
            if moves.len() > 0 {
                assert(moves@.contains(moves@[0]));
            }
            if has_legal_move(*board) {
                let m = choose|m: Move| valid_move(*board, m);
                assert(moves@.contains(m));
            }
        }
        !Self::is_in_check(board, board.get_to_move()) && moves.len() == 0
    }

    /// A hundred plies have passed without a pawn move or a capture.
    pub fn is_draw_by_fifty_move_rule(board: &Board) -> (r: bool)
        ensures
            r == (board.halfmove_clock >= 100),
    {
        board.get_halfmove_clock() >= 100
    }
}

/// A legal move can be played, and afterwards the mover's own king is not in
/// check.
pub proof fn lemma_legal_move_leaves_no_check(b: Board, m: Move, n: Board)
    requires
        valid_move(b, m),
        is_after(n, b, m),
    ensures
        applicable(b, m),
        !in_check(n.squares@, b.to_move),
{
}

/// A pawn that reaches its last rank without naming a promotion kind makes no
/// legal move.
pub proof fn lemma_promotion_required(b: Board, m: Move)
    requires
        at(b.squares@, m.from) is Some,
        at(b.squares@, m.from)->0.piece_type == PieceType::Pawn,
        m.to.rank == at(b.squares@, m.from)->0.color.last_rank(),
        m.promotion is None,
    ensures
        !valid_move(b, m),
{
}

/// An en-passant capture is legal only onto the board's en-passant target.
pub proof fn lemma_en_passant_needs_target(b: Board, m: Move)
    requires
        valid_move(b, m),
        m.is_en_passant,
    ensures
        b.en_passant_target == Some(m.to),
{
}

/// After any move other than a pawn's two-square advance, no en-passant
/// capture is legal: the window lasts exactly one move.
pub proof fn lemma_en_passant_window_closes(b: Board, played: Move, n: Board, m: Move)
    requires
        is_after(n, b, played),
        !(at(b.squares@, played.from)->0.piece_type == PieceType::Pawn && abs(
            rank_diff(played.from, played.to),
        ) == 2),
        m.is_en_passant,
    ensures
        n.en_passant_target is None,
        !valid_move(n, m),
{
}

/// The square a castling king crosses: halfway between its two squares.
pub open spec fn crossed(m: Move) -> Position {
    Position { file: ((m.from.file + m.to.file) / 2) as u8, rank: m.from.rank }
}

/// Castling is not legal when the king's square, the square it crosses or the
/// square it reaches is attacked by the other side.
pub proof fn lemma_castling_through_attack(b: Board, m: Move)
    requires
        m.is_castle,
        attacked(b.squares@, m.from, b.to_move.other()) || attacked(
            b.squares@,
            crossed(m),
            b.to_move.other(),
        ) || attacked(b.squares@, m.to, b.to_move.other()),
    ensures
        !valid_move(b, m),
{
    if valid_move(b, m) {
        assert(castle_ok(b, m, at(b.squares@, m.from)->0));
        assert(crossed(m) == rook_to(m));
    }
}

/// Exactly one square holds a king of `c`.
pub open spec fn one_king(sq: Seq<Option<Piece>>, c: Color) -> bool {
    exists|k: Position| #[trigger]
        is_king_at(sq, k, c) && forall|q: Position| #[trigger] is_king_at(sq, q, c) ==> q == k
}

/// What holds of every position reached by legal moves from the start: one
/// king per side, and the side that just moved is not in check.
pub open spec fn sound(b: Board) -> bool {
    &&& one_king(b.squares@, Color::White)
    &&& one_king(b.squares@, Color::Black)
    &&& !in_check(b.squares@, b.to_move.other())
}

proof fn lemma_king_square_unique(sq: Seq<Option<Piece>>, c: Color, k: Position)
    requires
        is_king_at(sq, k, c),
        forall|q: Position| #[trigger] is_king_at(sq, q, c) ==> q == k,
    ensures
        king_square(sq, c) == Some(k),
{
    assert(first_king(sq, c, k));
    let f = choose|p: Position| first_king(sq, c, p);
    assert(first_king(sq, c, f));
    assert(f == k);
}

/// A move that lands on the square of the other side's king attacks it.
proof fn lemma_capture_is_attack(b: Board, m: Move)
    requires
        valid_move(b, m),
        !m.is_castle,
        at(b.squares@, m.to) is Some,
    ensures
        attacks(b.squares@, m.from, m.to, b.to_move),
{
}

proof fn lemma_start_sound(b: Board)
    requires
        is_start(b),
    ensures
        sound(b),
{
    let sq = b.squares@;
    let wk = Position { file: 4, rank: 0 };
    let bk = Position { file: 4, rank: 7 };
    assert(at(sq, wk) == start_at(wk));
    assert(at(sq, bk) == start_at(bk));
    assert forall|q: Position| #[trigger] is_king_at(sq, q, Color::White) implies q == wk by {
        assert(at(sq, q) == start_at(q));
    }
    assert forall|q: Position| #[trigger] is_king_at(sq, q, Color::Black) implies q == bk by {
        assert(at(sq, q) == start_at(q));
    }
    assert(is_king_at(sq, wk, Color::White));
    assert(is_king_at(sq, bk, Color::Black));
    lemma_king_square_unique(sq, Color::Black, bk);
    assert forall|p: Position| !#[trigger] attacks(sq, p, bk, Color::White) by {
        if p.valid() {
            assert(at(sq, p) == start_at(p));
        }
    }
}

/// One legal move keeps a position sound.
proof fn lemma_move_keeps_sound(b: Board, m: Move, n: Board)
    requires
        sound(b),
        valid_move(b, m),
        is_after(n, b, m),
    ensures
        sound(n),
{
    let sq = b.squares@;
    let ns = n.squares@;
    let c = b.to_move;
    let o = c.other();
    let p = at(sq, m.from)->0;
    let kc = choose|k: Position| #[trigger]
        is_king_at(sq, k, c) && forall|q: Position| #[trigger] is_king_at(sq, q, c) ==> q == k;
    let ko = choose|k: Position| #[trigger]
        is_king_at(sq, k, o) && forall|q: Position| #[trigger] is_king_at(sq, q, o) ==> q == k;
    assert(is_king_at(sq, kc, c));
    assert(is_king_at(sq, ko, o));
    lemma_king_square_unique(sq, o, ko);
    assert(!attacked(sq, ko, c));
    // The move does not land on the other king.
    if m.to == ko {
        if m.is_castle {
            assert(castle_ok(b, m, p));
            let k1 = ray(m.from, rook_from(m), 1);
            let k2 = ray(m.from, rook_from(m), 2);
            assert(at(sq, k1) is None);
            assert(at(sq, k2) is None);
            assert(m.to == k2 || m.to == k1);
        } else {
            lemma_capture_is_attack(b, m);
        }
    }
    assert(m.to != ko);
    if m.is_castle {
        assert(castle_ok(b, m, p));
        let k1 = ray(m.from, rook_from(m), 1);
        let k2 = ray(m.from, rook_from(m), 2);
        assert(at(sq, k1) is None);
        assert(at(sq, k2) is None);
        assert(m.to == k2 || m.to == k1);
        assert(rook_to(m) == k1);
    }
    if m.is_en_passant {
        assert(p.piece_type == PieceType::Pawn);
    }
    // The mover's king ends where it is after the move.
    let nk = if p.piece_type == PieceType::King {
        m.to
    } else {
        kc
    };
    assert(is_king_at(ns, nk, c)) by {
        if p.piece_type != PieceType::King {
            assert(kc != m.from);
            assert(kc != m.to);
            if m.is_castle {
                assert(false);
            }
            if m.is_en_passant {
                assert(kc != passed_pawn_square(m));
            }
        }
    }
    let k1 = ray(m.from, rook_from(m), 1);
    let k2 = ray(m.from, rook_from(m), 2);
    if m.is_castle {
        assert(m.to == k2 && rook_to(m) == k1);
        assert(rook_from(m) != m.to && rook_to(m) != m.to && rook_from(m) != rook_to(m));
    }
    if m.is_en_passant {
        assert(passed_pawn_square(m) != m.from && passed_pawn_square(m) != m.to);
    }
    assert forall|q: Position| #[trigger] is_king_at(ns, q, c) implies q == nk by {
        if q == m.from {
            assert(at(ns, q) is None);
        } else if q == m.to {
            if p.piece_type != PieceType::King {
                assert(at(ns, q)->0.piece_type != PieceType::King);
            }
        } else if m.is_en_passant && q == passed_pawn_square(m) {
            assert(at(ns, q) is None);
        } else if m.is_castle && q == rook_from(m) {
            assert(at(ns, q) is None);
        } else if m.is_castle && q == rook_to(m) {
            assert(at(ns, q)->0.piece_type == PieceType::Rook);
        } else {
            assert(at(ns, q) == at(sq, q));
            assert(is_king_at(sq, q, c));
            if p.piece_type == PieceType::King {
                assert(is_king_at(sq, m.from, c));
            }
        }
    }
    assert forall|q: Position| #[trigger] is_king_at(ns, q, o) implies q == ko by {
        if q == m.from {
            assert(at(ns, q) is None);
        } else if q == m.to {
            assert(at(ns, q)->0.color == c);
        } else if m.is_en_passant && q == passed_pawn_square(m) {
            assert(at(ns, q) is None);
        } else if m.is_castle && q == rook_from(m) {
            assert(at(ns, q) is None);
        } else if m.is_castle && q == rook_to(m) {
            assert(at(ns, q)->0.color == c);
        } else {
            assert(at(ns, q) == at(sq, q));
            assert(is_king_at(sq, q, o));
        }
    }
    assert(is_king_at(ns, ko, o)) by {
        assert(ko != m.from);
        if m.is_en_passant {
            assert(ko != passed_pawn_square(m));
        }
        if m.is_castle {
            assert(ko != rook_from(m));
            assert(ko != rook_to(m));
        }
        assert(at(ns, ko) == at(sq, ko));
    }
    assert(one_king(ns, c));
    assert(one_king(ns, o));
}

/// Along any game of legal moves from the starting position, each side has
/// exactly one king.
pub proof fn lemma_one_king_each(boards: Seq<Board>, moves: Seq<Move>)
    requires
        boards.len() == moves.len() + 1,
        is_start(boards[0]),
        forall|i: int|
            0 <= i < moves.len() ==> valid_move(boards[i], #[trigger] moves[i]) && is_after(
                boards[i + 1],
                boards[i],
                moves[i],
            ),
    ensures
        forall|i: int|
            0 <= i < boards.len() ==> one_king((#[trigger] boards[i]).squares@, Color::White)
                && one_king(boards[i].squares@, Color::Black),
{
    assert forall|i: int| 0 <= i < boards.len() implies one_king(
        (#[trigger] boards[i]).squares@,
        Color::White,
    ) && one_king(boards[i].squares@, Color::Black) by {
        lemma_sound_along(boards, moves, i);
    }
}

proof fn lemma_sound_along(boards: Seq<Board>, moves: Seq<Move>, i: int)
    requires
        boards.len() == moves.len() + 1,
        is_start(boards[0]),
        forall|j: int|
            0 <= j < moves.len() ==> valid_move(boards[j], #[trigger] moves[j]) && is_after(
                boards[j + 1],
                boards[j],
                moves[j],
            ),
        0 <= i < boards.len(),
    ensures
        sound(boards[i]),
    decreases i,
{
    if i == 0 {
        lemma_start_sound(boards[0]);
    } else {
        lemma_sound_along(boards, moves, i - 1);
        assert(valid_move(boards[i - 1], moves[i - 1]));
        lemma_move_keeps_sound(boards[i - 1], moves[i - 1], boards[i]);
    }
}

} // verus!
