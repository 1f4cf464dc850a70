use vstd::prelude::*;

use crate::piece::{Color, Move, Piece, PieceType, Position};
use crate::text::{decimal, digit, push_char, push_decimal};

verus! {

#[derive(Clone, Copy, Debug, PartialEq, Eq, Structural)]
pub struct CastlingRights {
    pub white_kingside: bool,
    pub white_queenside: bool,
    pub black_kingside: bool,
    pub black_queenside: bool,
}

impl CastlingRights {
    /// The right of `color` to castle on the given wing.
    pub open spec fn allows(self, color: Color, kingside: bool) -> bool {
        match (color, kingside) {
            (Color::White, true) => self.white_kingside,
            (Color::White, false) => self.white_queenside,
            (Color::Black, true) => self.black_kingside,
            (Color::Black, false) => self.black_queenside,
        }
    }

    pub open spec fn none() -> CastlingRights {
        CastlingRights {
            white_kingside: false,
            white_queenside: false,
            black_kingside: false,
            black_queenside: false,
        }
    }
}

impl Default for CastlingRights {
    fn default() -> (r: CastlingRights)
        ensures
            r == (CastlingRights {
                white_kingside: true,
                white_queenside: true,
                black_kingside: true,
                black_queenside: true,
            }),
    {
        CastlingRights {
            white_kingside: true,
            white_queenside: true,
            black_kingside: true,
            black_queenside: true,
        }
    }
}

/// An 8x8 board with the state that the rules need besides the pieces.
/// `squares` lists the squares rank by rank, from a1 to h8.
#[derive(Clone, Copy, Debug)]
pub struct Board {
    pub squares: [Option<Piece>; 64],
    pub to_move: Color,
    pub castling_rights: CastlingRights,
    pub en_passant_target: Option<Position>,
    pub halfmove_clock: u32,
    pub fullmove_number: u32,
}

/// What stands on a square; nothing stands off the board.
pub open spec fn at(sq: Seq<Option<Piece>>, p: Position) -> Option<Piece> {
    if p.valid() {
        sq[p.index()]
    } else {
        None
    }
}

pub open spec fn abs(x: int) -> int {
    if x < 0 {
        -x
    } else {
        x
    }
}

pub open spec fn file_diff(from: Position, to: Position) -> int {
    to.file as int - from.file as int
}

pub open spec fn rank_diff(from: Position, to: Position) -> int {
    to.rank as int - from.rank as int
}

/// Two squares on one file, rank or diagonal.
pub open spec fn aligned(from: Position, to: Position) -> bool {
    file_diff(from, to) == 0 || rank_diff(from, to) == 0 || abs(file_diff(from, to)) == abs(
        rank_diff(from, to),
    )
}

/// The number of unit steps from one square to another on a line.
pub open spec fn steps(from: Position, to: Position) -> int {
    if abs(file_diff(from, to)) >= abs(rank_diff(from, to)) {
        abs(file_diff(from, to))
    } else {
        abs(rank_diff(from, to))
    }
}

/// `k` unit steps in the direction of `d`.
pub open spec fn toward(d: int, k: int) -> int {
    if d > 0 {
        k
    } else if d < 0 {
        -k
    } else {
        0
    }
}

/// The square `k` unit steps from `from` toward `to`.
pub open spec fn ray(from: Position, to: Position, k: int) -> Position {
    Position {
        file: (from.file as int + toward(file_diff(from, to), k)) as u8,
        rank: (from.rank as int + toward(rank_diff(from, to), k)) as u8,
    }
}

/// Every square strictly between the two ends of a line is empty.
pub open spec fn path_clear(sq: Seq<Option<Piece>>, from: Position, to: Position) -> bool {
    forall|k: int| 1 <= k < steps(from, to) ==> (#[trigger] at(sq, ray(from, to, k))) is None
}

/// The rook's square for a castling move: the h-file toward a greater file,
/// else the a-file.
pub open spec fn rook_from(m: Move) -> Position {
    Position { file: if m.to.file > m.from.file { 7 } else { 0 }, rank: m.from.rank }
}

/// Where the rook lands in a castling move: the f-file or the d-file.
pub open spec fn rook_to(m: Move) -> Position {
    Position { file: if m.to.file > m.from.file { 5 } else { 3 }, rank: m.from.rank }
}

/// The square of the pawn taken en passant: the destination file, on the
/// rank the capturing pawn left.
pub open spec fn passed_pawn_square(m: Move) -> Position {
    Position { file: m.to.file, rank: m.from.rank }
}

pub open spec fn moved(p: Piece) -> Piece {
    Piece { has_moved: true, ..p }
}

/// The piece that a move puts on its destination: the mover, marked as
/// moved, of the promotion kind if the move names one.
pub open spec fn placed(p: Piece, m: Move) -> Piece {
    match m.promotion {
        Some(k) => Piece { piece_type: k, ..moved(p) },
        None => moved(p),
    }
}

/// A move that `make_move` carries out: both squares on the board, a piece
/// of the side to move on the first, and, for castling, a rook square other
/// than the two king squares with a piece on it.
pub open spec fn applicable(b: Board, m: Move) -> bool {
    &&& m.from.valid()
    &&& m.to.valid()
    &&& at(b.squares@, m.from) is Some
    &&& at(b.squares@, m.from)->0.color == b.to_move
    &&& m.is_castle ==> {
        &&& at(b.squares@, rook_from(m)) is Some
        &&& rook_from(m) != m.from
        &&& rook_from(m) != m.to
    }
}

/// The squares after a move.
pub open spec fn squares_after(sq: Seq<Option<Piece>>, m: Move) -> Seq<Option<Piece>> {
    let p = at(sq, m.from)->0;
    let lifted = sq.update(m.from.index(), None);
    if m.is_castle {
        let rook = at(sq, rook_from(m))->0;
        lifted.update(m.to.index(), Some(moved(p))).update(rook_from(m).index(), None).update(
            rook_to(m).index(),
            Some(moved(rook)),
        )
    } else if m.is_en_passant {
        lifted.update(m.to.index(), Some(placed(p, m))).update(passed_pawn_square(m).index(), None)
    } else {
        lifted.update(m.to.index(), Some(placed(p, m)))
    }
}

/// The en-passant target after a move: the square a pawn skipped in a
/// two-square advance, else none.
pub open spec fn en_passant_after(b: Board, m: Move) -> Option<Position> {
    let p = at(b.squares@, m.from)->0;
    if p.piece_type == PieceType::Pawn && abs(rank_diff(m.from, m.to)) == 2 {
        Some(
            Position { file: m.from.file, rank: ((m.from.rank as int + m.to.rank as int) / 2) as u8 },
        )
    } else {
        None
    }
}

/// A right is lost for good when its king or rook moves or the rook's corner
/// is entered.
pub open spec fn rights_after(r: CastlingRights, m: Move, p: Piece) -> CastlingRights {
    let king_moved = p.piece_type == PieceType::King;
    let rook_left = |c: Color, file: u8, rank: u8|
        p.piece_type == PieceType::Rook && p.color == c && m.from.file == file && m.from.rank
            == rank;
    let entered = |file: u8, rank: u8| m.to.file == file && m.to.rank == rank;
    CastlingRights {
        white_kingside: r.white_kingside && !(king_moved && p.color == Color::White) && !rook_left(
            Color::White,
            7,
            0,
        ) && !entered(7, 0),
        white_queenside: r.white_queenside && !(king_moved && p.color == Color::White)
            && !rook_left(Color::White, 0, 0) && !entered(0, 0),
        black_kingside: r.black_kingside && !(king_moved && p.color == Color::Black) && !rook_left(
            Color::Black,
            7,
            7,
        ) && !entered(7, 7),
        black_queenside: r.black_queenside && !(king_moved && p.color == Color::Black)
            && !rook_left(Color::Black, 0, 7) && !entered(0, 7),
    }
}

/// Plies since the last pawn move or capture.
pub open spec fn clock_after(b: Board, m: Move) -> u32 {
    if at(b.squares@, m.from)->0.piece_type == PieceType::Pawn || at(b.squares@, m.to) is Some {
        0
    } else if b.halfmove_clock < u32::MAX {
        (b.halfmove_clock + 1) as u32
    } else {
        b.halfmove_clock
    }
}

/// The move number goes up after Black's move.
pub open spec fn fullmove_after(b: Board) -> u32 {
    if b.to_move == Color::Black && b.fullmove_number < u32::MAX {
        (b.fullmove_number + 1) as u32
    } else {
        b.fullmove_number
    }
}

/// `n` is the board `b` after the move `m`.
pub open spec fn is_after(n: Board, b: Board, m: Move) -> bool {
    &&& n.squares@ == squares_after(b.squares@, m)
    &&& n.to_move == b.to_move.other()
    &&& n.castling_rights == rights_after(b.castling_rights, m, at(b.squares@, m.from)->0)
    &&& n.en_passant_target == en_passant_after(b, m)
    &&& n.halfmove_clock == clock_after(b, m)
    &&& n.fullmove_number == fullmove_after(b)
}

/// The piece that starts a game on a square.
pub open spec fn start_at(p: Position) -> Option<Piece> {
    let back = if p.file == 0 || p.file == 7 {
        PieceType::Rook
    } else if p.file == 1 || p.file == 6 {
        PieceType::Knight
    } else if p.file == 2 || p.file == 5 {
        PieceType::Bishop
    } else if p.file == 3 {
        PieceType::Queen
    } else {
        PieceType::King
    };
    if p.rank == 0 {
        Some(Piece { piece_type: back, color: Color::White, has_moved: false })
    } else if p.rank == 1 {
        Some(Piece { piece_type: PieceType::Pawn, color: Color::White, has_moved: false })
    } else if p.rank == 6 {
        Some(Piece { piece_type: PieceType::Pawn, color: Color::Black, has_moved: false })
    } else if p.rank == 7 {
        Some(Piece { piece_type: back, color: Color::Black, has_moved: false })
    } else {
        None
    }
}

pub open spec fn is_start(b: Board) -> bool {
    &&& forall|p: Position| p.valid() ==> #[trigger] at(b.squares@, p) == start_at(p)
    &&& b.to_move == Color::White
    &&& b.castling_rights == CastlingRights {
        white_kingside: true,
        white_queenside: true,
        black_kingside: true,
        black_queenside: true,
    }
    &&& b.en_passant_target is None
    &&& b.halfmove_clock == 0
    &&& b.fullmove_number == 1
}

pub open spec fn is_king_at(sq: Seq<Option<Piece>>, p: Position, c: Color) -> bool {
    &&& p.valid()
    &&& at(sq, p) is Some
    &&& at(sq, p)->0.piece_type == PieceType::King
    &&& at(sq, p)->0.color == c
}

/// `p` holds a king of `c`, and no square before it in a1..h8 order does.
pub open spec fn first_king(sq: Seq<Option<Piece>>, c: Color, p: Position) -> bool {
    &&& is_king_at(sq, p, c)
    &&& forall|q: Position| #[trigger]
        q.valid() && q.index() < p.index() ==> !is_king_at(sq, q, c)
}

/// The first square in a1..h8 order that holds a king of `c`.
pub open spec fn king_square(sq: Seq<Option<Piece>>, c: Color) -> Option<Position> {
    if exists|p: Position| first_king(sq, c, p) {
        Some(choose|p: Position| first_king(sq, c, p))
    } else {
        None
    }
}

/// Piece placement as FEN writes one rank, from `file` on, with `run` empty
/// squares counted before it.
pub open spec fn rank_text(sq: Seq<Option<Piece>>, rank: u8, file: int, run: nat) -> Seq<char>
    decreases 8 - file,
{
    if file >= 8 {
        if run > 0 {
            decimal(run)
        } else {
            Seq::empty()
        }
    } else {
        match at(sq, Position { file: file as u8, rank }) {
            Some(p) => (if run > 0 {
                decimal(run)
            } else {
                Seq::empty()
            }) + seq![p.fen_letter()] + rank_text(sq, rank, file + 1, 0),
            None => rank_text(sq, rank, file + 1, run + 1),
        }
    }
}

/// FEN piece placement of the ranks from `rank` down to the first, joined by `/`.
pub open spec fn placement_from(sq: Seq<Option<Piece>>, rank: int) -> Seq<char>
    decreases rank,
{
    if rank <= 0 {
        rank_text(sq, 0, 0, 0)
    } else {
        rank_text(sq, rank as u8, 0, 0) + seq!['/'] + placement_from(sq, rank - 1)
    }
}

pub open spec fn castling_text(r: CastlingRights) -> Seq<char> {
    let s = (if r.white_kingside {
        seq!['K']
    } else {
        Seq::empty()
    }) + (if r.white_queenside {
        seq!['Q']
    } else {
        Seq::empty()
    }) + (if r.black_kingside {
        seq!['k']
    } else {
        Seq::empty()
    }) + (if r.black_queenside {
        seq!['q']
    } else {
        Seq::empty()
    });
    if s.len() == 0 {
        seq!['-']
    } else {
        s
    }
}

pub open spec fn side_letter(c: Color) -> char {
    match c {
        Color::White => 'w',
        Color::Black => 'b',
    }
}

/// The key of a position for repetition: the first four FEN fields (piece
/// placement, side to move, castling rights, en-passant square).
pub open spec fn key_of(
    sq: Seq<Option<Piece>>,
    to_move: Color,
    rights: CastlingRights,
    ep: Option<Position>,
) -> Seq<char> {
    placement_from(sq, 7) + seq![' ', side_letter(to_move), ' '] + castling_text(rights) + seq![' ']
        + ep_text(ep)
}

/// The en-passant field of FEN: the target square, or `-`.
pub open spec fn ep_text(ep: Option<Position>) -> Seq<char> {
    match ep {
        Some(p) => if p.valid() {
            p.name()
        } else {
            seq!['-']
        },
        None => seq!['-'],
    }
}

pub open spec fn fen_of(b: Board) -> Seq<char> {
    key_of(b.squares@, b.to_move, b.castling_rights, b.en_passant_target) + seq![' '] + decimal(
        b.halfmove_clock as nat,
    ) + seq![' '] + decimal(b.fullmove_number as nat)
}

/// One rank as `display` draws it, from `file` on: a letter or `.` and a
/// space for each square, then a line break.
pub open spec fn drawn_rank(sq: Seq<Option<Piece>>, rank: u8, file: int) -> Seq<char>
    decreases 8 - file,
{
    if file >= 8 {
        seq!['\n']
    } else {
        seq![
            match at(sq, Position { file: file as u8, rank }) {
                Some(p) => p.fen_letter(),
                None => '.',
            },
            ' ',
        ] + drawn_rank(sq, rank, file + 1)
    }
}

/// The drawing of the ranks from `rank` down to the first, each led by its number.
pub open spec fn drawn_from(sq: Seq<Option<Piece>>, rank: int) -> Seq<char>
    decreases rank,
{
    let line = seq![digit((rank + 1) as nat), ' '] + drawn_rank(sq, rank as u8, 0);
    if rank <= 0 {
        line
    } else {
        line + drawn_from(sq, rank - 1)
    }
}

pub open spec fn file_legend() -> Seq<char> {
    seq![' ', ' ', 'a', ' ', 'b', ' ', 'c', ' ', 'd', ' ', 'e', ' ', 'f', ' ', 'g', ' ', 'h', '\n']
}

fn push_castling(s: &mut String, r: CastlingRights)
    ensures
        final(s)@ == old(s)@ + castling_text(r),
{
    let mut any = false;
    if r.white_kingside {
        push_char(s, 'K');
        any = true;
    }
    if r.white_queenside {
        push_char(s, 'Q');
        any = true;
    }
    if r.black_kingside {
        push_char(s, 'k');
        any = true;
    }
    if r.black_queenside {
        push_char(s, 'q');
        any = true;
    }
    if !any {
        push_char(s, '-');
    }
    assert(s@ =~= old(s)@ + castling_text(r));
}

fn push_en_passant(s: &mut String, ep: Option<Position>)
    ensures
        final(s)@ == old(s)@ + ep_text(ep),
{
    match ep {
        Some(pos) => {
            if pos.is_valid() {
                let name = pos.to_algebraic();
                s.append(name.as_str());
            } else {
                push_char(s, '-');
            }
        },
        None => push_char(s, '-'),
    }
    assert(s@ =~= old(s)@ + ep_text(ep));
}

fn start_piece(file: u8, rank: u8) -> (r: Option<Piece>)
    ensures
        r == start_at(Position { file, rank }),
{
    let back = if file == 0 || file == 7 {
        PieceType::Rook
    } else if file == 1 || file == 6 {
        PieceType::Knight
    } else if file == 2 || file == 5 {
        PieceType::Bishop
    } else if file == 3 {
        PieceType::Queen
    } else {
        PieceType::King
    };
    if rank == 0 {
        Some(Piece::new(back, Color::White))
    } else if rank == 1 {
        Some(Piece::new(PieceType::Pawn, Color::White))
    } else if rank == 6 {
        Some(Piece::new(PieceType::Pawn, Color::Black))
    } else if rank == 7 {
        Some(Piece::new(back, Color::Black))
    } else {
        None
    }
}

fn castle_rook_from(m: &Move) -> (r: Position)
    ensures
        r == rook_from(*m),
{
    Position { file: if m.to.file > m.from.file { 7 } else { 0 }, rank: m.from.rank }
}

fn castle_rook_to(m: &Move) -> (r: Position)
    ensures
        r == rook_to(*m),
{
    Position { file: if m.to.file > m.from.file { 5 } else { 3 }, rank: m.from.rank }
}

fn idx(p: Position) -> (r: usize)
    requires
        p.valid(),
    ensures
        r as int == p.index(),
        r < 64,
{
    (p.rank as usize) * 8 + (p.file as usize)
}

impl Board {
    pub fn new() -> (r: Board)
        ensures
            is_start(r),
    {
        let mut board = Board {
            squares: [None; 64],
            to_move: Color::White,
            castling_rights: CastlingRights::default(),
            en_passant_target: None,
            halfmove_clock: 0,
            fullmove_number: 1,
        };
        board.setup_starting_position();
        board
    }

    pub fn empty() -> (r: Board)
        ensures
            forall|p: Position| #[trigger] at(r.squares@, p) is None,
            r.to_move == Color::White,
            r.castling_rights == CastlingRights::none(),
            r.en_passant_target is None,
            r.halfmove_clock == 0,
            r.fullmove_number == 1,
    {
        let r = Board {
            squares: [None; 64],
            to_move: Color::White,
            castling_rights: CastlingRights {
                white_kingside: false,
                white_queenside: false,
                black_kingside: false,
                black_queenside: false,
            },
            en_passant_target: None,
            halfmove_clock: 0,
            fullmove_number: 1,
        };
        assert forall|p: Position| #[trigger] at(r.squares@, p) is None by {
            if p.valid() {
                assert(r.squares@[p.index()] is None);
            }
        }
        r
    }

    /// Puts every piece on its starting square and clears the rest.
    pub fn setup_starting_position(&mut self)
        ensures
            forall|p: Position| p.valid() ==> #[trigger] at(final(self).squares@, p) == start_at(p),
            final(self).to_move == old(self).to_move,
            final(self).castling_rights == old(self).castling_rights,
            final(self).en_passant_target == old(self).en_passant_target,
            final(self).halfmove_clock == old(self).halfmove_clock,
            final(self).fullmove_number == old(self).fullmove_number,
    {
        let mut rank: u8 = 0;
        while rank < 8
            invariant
                rank <= 8,
                forall|p: Position|
                    p.valid() && p.rank < rank ==> #[trigger] at(self.squares@, p) == start_at(p),
                self.to_move == old(self).to_move,
                self.castling_rights == old(self).castling_rights,
                self.en_passant_target == old(self).en_passant_target,
                self.halfmove_clock == old(self).halfmove_clock,
                self.fullmove_number == old(self).fullmove_number,
            decreases 8 - rank,
        {
            let mut file: u8 = 0;
            while file < 8
                invariant
                    rank < 8,
                    file <= 8,
                    forall|p: Position|
                        p.valid() && (p.rank < rank || (p.rank == rank && p.file < file))
                            ==> #[trigger] at(self.squares@, p) == start_at(p),
                    self.to_move == old(self).to_move,
                    self.castling_rights == old(self).castling_rights,
                    self.en_passant_target == old(self).en_passant_target,
                    self.halfmove_clock == old(self).halfmove_clock,
                    self.fullmove_number == old(self).fullmove_number,
                decreases 8 - file,
            {
                let p = Position { file, rank };
                let i = idx(p);
                let ghost before = self.squares@;
                self.squares[i] = start_piece(file, rank);
                assert(self.squares@ == before.update(i as int, start_at(p)));
                assert forall|q: Position|
                    q.valid() && (q.rank < rank || (q.rank == rank && q.file < file + 1))
                        implies #[trigger] at(self.squares@, q) == start_at(q) by {
                    if q.rank == rank && q.file == file {
                        assert(q == p);
                    } else {
                        assert(q.index() != i);
                        assert(at(before, q) == start_at(q));
                    }
                }
                file = file + 1;
            }
            rank = rank + 1;
        }
    }

    pub fn get_piece(&self, pos: Position) -> (r: Option<Piece>)
        ensures
            r == at(self.squares@, pos),
    {
        if pos.is_valid() {
            self.squares[idx(pos)]
        } else {
            None
        }
    }

    /// Puts a piece on a square of the board; a square off the board is ignored.
    pub fn place_piece(&mut self, pos: Position, piece: Piece)
        ensures
            final(self).squares@ == (if pos.valid() {
                old(self).squares@.update(pos.index(), Some(piece))
            } else {
                old(self).squares@
            }),
            final(self).to_move == old(self).to_move,
            final(self).castling_rights == old(self).castling_rights,
            final(self).en_passant_target == old(self).en_passant_target,
            final(self).halfmove_clock == old(self).halfmove_clock,
            final(self).fullmove_number == old(self).fullmove_number,
    {
        if pos.is_valid() {
            self.squares[idx(pos)] = Some(piece);
        }
    }

    /// Takes the piece off a square and returns it.
    pub fn remove_piece(&mut self, pos: Position) -> (r: Option<Piece>)
        ensures
            r == at(old(self).squares@, pos),
            final(self).squares@ == (if pos.valid() {
                old(self).squares@.update(pos.index(), None)
            } else {
                old(self).squares@
            }),
            final(self).to_move == old(self).to_move,
            final(self).castling_rights == old(self).castling_rights,
            final(self).en_passant_target == old(self).en_passant_target,
            final(self).halfmove_clock == old(self).halfmove_clock,
            final(self).fullmove_number == old(self).fullmove_number,
    {
        if pos.is_valid() {
            let i = idx(pos);
            let piece = self.squares[i];
            self.squares[i] = None;
            piece
        } else {
            None
        }
    }

    pub fn is_empty(&self, pos: Position) -> (r: bool)
        ensures
            r == (at(self.squares@, pos) is None),
    {
        self.get_piece(pos).is_none()
    }

    pub fn is_occupied_by(&self, pos: Position, color: Color) -> (r: bool)
        ensures
            r == (at(self.squares@, pos) is Some && at(self.squares@, pos)->0.color == color),
    {
        match self.get_piece(pos) {
            Some(piece) => piece.color == color,
            None => false,
        }
    }

    pub fn get_to_move(&self) -> (r: Color)
        ensures
            r == self.to_move,
    {
        self.to_move
    }

    pub fn set_to_move(&mut self, color: Color)
        ensures
            *final(self) == (Board { to_move: color, ..*old(self) }),
    {
        self.to_move = color;
    }

    pub fn get_castling_rights(&self) -> (r: &CastlingRights)
        ensures
            *r == self.castling_rights,
    {
        &self.castling_rights
    }

    pub fn get_en_passant_target(&self) -> (r: Option<Position>)
        ensures
            r == self.en_passant_target,
    {
        self.en_passant_target
    }

    pub fn get_halfmove_clock(&self) -> (r: u32)
        ensures
            r == self.halfmove_clock,
    {
        self.halfmove_clock
    }

    pub fn get_fullmove_number(&self) -> (r: u32)
        ensures
            r == self.fullmove_number,
    {
        self.fullmove_number
    }

    /// The first square, in a1..h8 order, that holds a king of `color`.
    pub fn find_king(&self, color: Color) -> (r: Option<Position>)
        ensures
            r == king_square(self.squares@, color),
    {
        let ghost sq = self.squares@;
        let mut rank: u8 = 0;
        while rank < 8
            invariant
                rank <= 8,
                sq == self.squares@,
                forall|q: Position|
                    q.valid() && q.rank < rank ==> !#[trigger] is_king_at(sq, q, color),
            decreases 8 - rank,
        {
            let mut file: u8 = 0;
            while file < 8
                invariant
                    rank < 8,
                    file <= 8,
                    sq == self.squares@,
                    forall|q: Position|
                        q.valid() && (q.rank < rank || (q.rank == rank && q.file < file))
                            ==> !#[trigger] is_king_at(sq, q, color),
                decreases 8 - file,
            {
                let pos = Position { file, rank };
                match self.squares[idx(pos)] {
                    Some(piece) => {
                        if piece.piece_type == PieceType::King && piece.color == color {
                            proof {
                                assert(first_king(sq, color, pos));
                                let c = choose|p: Position| first_king(sq, color, p);
                                assert(first_king(sq, color, c));
                                if c.index() < pos.index() {
                                    assert(!is_king_at(sq, c, color));
                                } else if pos.index() < c.index() {
                                    assert(!is_king_at(sq, pos, color));
                                }
                                assert(c == pos);
                            }
                            return Some(pos);
                        }
                    },
                    None => {},
                }
                file = file + 1;
            }
            rank = rank + 1;
        }
        proof {
            if exists|p: Position| first_king(sq, color, p) {
                let p = choose|p: Position| first_king(sq, color, p);
                assert(is_king_at(sq, p, color));
            }
        }
        None
    }

    /// Whether every square strictly between two squares of one line is empty.
    pub fn is_path_clear(&self, from: Position, to: Position) -> (r: bool)
        requires
            from.valid(),
            to.valid(),
            aligned(from, to),
        ensures
            r == path_clear(self.squares@, from, to),
    {
        let df: i16 = to.file as i16 - from.file as i16;
        let dr: i16 = to.rank as i16 - from.rank as i16;
        let n: i16 = if (if df < 0 { -df } else { df }) >= (if dr < 0 { -dr } else { dr }) {
            if df < 0 { -df } else { df }
        } else {
            if dr < 0 { -dr } else { dr }
        };
        assert(n == steps(from, to));
        let sf: i16 = if df > 0 { 1 } else if df < 0 { -1 } else { 0 };
        let sr: i16 = if dr > 0 { 1 } else if dr < 0 { -1 } else { 0 };
        let mut k: i16 = 1;
        let mut f: i16 = from.file as i16 + sf;
        let mut rk: i16 = from.rank as i16 + sr;
        while k < n
            invariant
                1 <= k,
                from.valid(),
                to.valid(),
                aligned(from, to),
                n == steps(from, to),
                n <= 7,
                f == from.file as int + toward(file_diff(from, to), k as int),
                rk == from.rank as int + toward(rank_diff(from, to), k as int),
                df == file_diff(from, to),
                dr == rank_diff(from, to),
                sf == toward(df as int, 1),
                sr == toward(dr as int, 1),
                forall|j: int|
                    1 <= j < k ==> (#[trigger] at(self.squares@, ray(from, to, j))) is None,
            decreases n - k,
        {
            assert(0 <= f < 8 && 0 <= rk < 8);
            let pos = Position { file: f as u8, rank: rk as u8 };
            assert(pos == ray(from, to, k as int));
            if self.squares[idx(pos)].is_some() {
                assert(at(self.squares@, ray(from, to, k as int)) is Some);
                return false;
            }
            k = k + 1;
            f = f + sf;
            rk = rk + sr;
        }
        true
    }

    /// Plays a move that the rules allow; see `applicable` for the moves it
    /// refuses, which leave the board as it was.
    pub fn make_move(&mut self, chess_move: &Move) -> (r: Result<(), String>)
        ensures
            r is Ok <==> applicable(*old(self), *chess_move),
            r is Ok ==> is_after(*final(self), *old(self), *chess_move),
            r is Err ==> *final(self) == *old(self),
    {
        let m = *chess_move;
        if !m.from.is_valid() || !m.to.is_valid() {
            return Err("Square off the board".to_string());
        }
        let piece = match self.get_piece(m.from) {
            Some(p) => p,
            None => {
                return Err("No piece at source position".to_string());
            },
        };
        if piece.color != self.to_move {
            return Err("Not your turn".to_string());
        }
        if m.is_castle {
            let rf = castle_rook_from(&m);
            if rf == m.from || rf == m.to || self.is_empty(rf) {
                return Err("No rook for castling".to_string());
            }
        }
        let ghost b = *self;
        let captures = !self.is_empty(m.to);
        if m.is_castle {
            self.execute_castle(&m, piece);
        } else if m.is_en_passant {
            self.execute_en_passant(&m, piece);
        } else {
            let mut moved_piece = piece;
            moved_piece.mark_moved();
            self.remove_piece(m.from);
            match m.promotion {
                Some(kind) => {
                    moved_piece.piece_type = kind;
                },
                None => {},
            }
            self.place_piece(m.to, moved_piece);
        }
        assert(self.squares@ == squares_after(b.squares@, m));
        self.update_en_passant_target(&m, &piece);
        self.update_castling_rights(&m, &piece);
        if piece.piece_type == PieceType::Pawn || captures {
            self.halfmove_clock = 0;
        } else if self.halfmove_clock < u32::MAX {
            self.halfmove_clock = self.halfmove_clock + 1;
        }
        if self.to_move == Color::Black && self.fullmove_number < u32::MAX {
            self.fullmove_number = self.fullmove_number + 1;
        }
        self.to_move = self.to_move.opposite();
        Ok(())
    }

    fn execute_castle(&mut self, chess_move: &Move, king: Piece)
        requires
            applicable(*old(self), *chess_move),
            chess_move.is_castle,
            at(old(self).squares@, chess_move.from) == Some(king),
        ensures
            final(self).squares@ == squares_after(old(self).squares@, *chess_move),
            final(self).to_move == old(self).to_move,
            final(self).castling_rights == old(self).castling_rights,
            final(self).en_passant_target == old(self).en_passant_target,
            final(self).halfmove_clock == old(self).halfmove_clock,
            final(self).fullmove_number == old(self).fullmove_number,
    {
        let ghost sq = self.squares@;
        let rf = castle_rook_from(chess_move);
        let rt = castle_rook_to(chess_move);
        let mut rook = match self.get_piece(rf) {
            Some(p) => p,
            None => {
                return ;
            },
        };
        let mut k = king;
        k.mark_moved();
        self.remove_piece(chess_move.from);
        self.place_piece(chess_move.to, k);
        assert(self.squares@[rf.index()] == sq[rf.index()]);
        self.remove_piece(rf);
        rook.mark_moved();
        self.place_piece(rt, rook);
    }

    fn execute_en_passant(&mut self, chess_move: &Move, pawn: Piece)
        requires
            applicable(*old(self), *chess_move),
            !chess_move.is_castle,
            chess_move.is_en_passant,
            at(old(self).squares@, chess_move.from) == Some(pawn),
        ensures
            final(self).squares@ == squares_after(old(self).squares@, *chess_move),
            final(self).to_move == old(self).to_move,
            final(self).castling_rights == old(self).castling_rights,
            final(self).en_passant_target == old(self).en_passant_target,
            final(self).halfmove_clock == old(self).halfmove_clock,
            final(self).fullmove_number == old(self).fullmove_number,
    {
        let mut p = pawn;
        p.mark_moved();
        match chess_move.promotion {
            Some(kind) => {
                p.piece_type = kind;
            },
            None => {},
        }
        self.remove_piece(chess_move.from);
        self.place_piece(chess_move.to, p);
        let captured = Position { file: chess_move.to.file, rank: chess_move.from.rank };
        self.remove_piece(captured);
    }

    fn update_en_passant_target(&mut self, chess_move: &Move, piece: &Piece)
        requires
            chess_move.from.valid(),
            chess_move.to.valid(),
        ensures
            final(self).en_passant_target == (if piece.piece_type == PieceType::Pawn && abs(
                rank_diff(chess_move.from, chess_move.to),
            ) == 2 {
                Some(
                    Position {
                        file: chess_move.from.file,
                        rank: ((chess_move.from.rank as int + chess_move.to.rank as int) / 2) as u8,
                    },
                )
            } else {
                None
            }),
            final(self).squares == old(self).squares,
            final(self).to_move == old(self).to_move,
            final(self).castling_rights == old(self).castling_rights,
            final(self).halfmove_clock == old(self).halfmove_clock,
            final(self).fullmove_number == old(self).fullmove_number,
    {
        self.en_passant_target = None;
        if piece.piece_type == PieceType::Pawn {
            let from_rank = chess_move.from.rank;
            let to_rank = chess_move.to.rank;
            if from_rank + 2 == to_rank || to_rank + 2 == from_rank {
                self.en_passant_target = Some(
                    Position { file: chess_move.from.file, rank: (from_rank + to_rank) / 2 },
                );
            }
        }
    }

    fn update_castling_rights(&mut self, chess_move: &Move, piece: &Piece)
        ensures
            final(self).castling_rights == rights_after(
                old(self).castling_rights,
                *chess_move,
                *piece,
            ),
            final(self).squares == old(self).squares,
            final(self).to_move == old(self).to_move,
            final(self).en_passant_target == old(self).en_passant_target,
            final(self).halfmove_clock == old(self).halfmove_clock,
            final(self).fullmove_number == old(self).fullmove_number,
    {
        let from = chess_move.from;
        let to = chess_move.to;
        match piece.piece_type {
            PieceType::King => {
                match piece.color {
                    Color::White => {
                        self.castling_rights.white_kingside = false;
                        self.castling_rights.white_queenside = false;
                    },
                    Color::Black => {
                        self.castling_rights.black_kingside = false;
                        self.castling_rights.black_queenside = false;
                    },
                }
            },
            PieceType::Rook => {
                match piece.color {
                    Color::White => {
                        if from.file == 0 && from.rank == 0 {
                            self.castling_rights.white_queenside = false;
                        } else if from.file == 7 && from.rank == 0 {
                            self.castling_rights.white_kingside = false;
                        }
                    },
                    Color::Black => {
                        if from.file == 0 && from.rank == 7 {
                            self.castling_rights.black_queenside = false;
                        } else if from.file == 7 && from.rank == 7 {
                            self.castling_rights.black_kingside = false;
                        }
                    },
                }
            },
            _ => {},
        }
        if to.file == 0 && to.rank == 0 {
            self.castling_rights.white_queenside = false;
        } else if to.file == 7 && to.rank == 0 {
            self.castling_rights.white_kingside = false;
        } else if to.file == 0 && to.rank == 7 {
            self.castling_rights.black_queenside = false;
        } else if to.file == 7 && to.rank == 7 {
            self.castling_rights.black_kingside = false;
        }
    }

    fn push_rank(&self, s: &mut String, rank: u8)
        requires
            rank < 8,
        ensures
            final(s)@ == old(s)@ + rank_text(self.squares@, rank, 0, 0),
    {
        let ghost sq = self.squares@;
        let mut run: u64 = 0;
        let mut file: u8 = 0;
        while file < 8
            invariant
                rank < 8,
                file <= 8,
                run <= file,
                sq == self.squares@,
                s@ + rank_text(sq, rank, file as int, run as nat) == old(s)@ + rank_text(
                    sq,
                    rank,
                    0,
                    0,
                ),
            decreases 8 - file,
        {
            let ghost before = s@;
            match self.get_piece(Position { file, rank }) {
                Some(p) => {
                    if run > 0 {
                        push_decimal(s, run);
                    }
                    push_char(s, p.to_fen_char());
                    assert(s@ + rank_text(sq, rank, file + 1, 0) =~= before + rank_text(
                        sq,
                        rank,
                        file as int,
                        run as nat,
                    ));
                    run = 0;
                },
                None => {
                    run = run + 1;
                },
            }
            file = file + 1;
        }
        if run > 0 {
            push_decimal(s, run);
        }
        assert(s@ =~= old(s)@ + rank_text(sq, rank, 0, 0));
    }

    fn push_placement(&self, s: &mut String)
        ensures
            final(s)@ == old(s)@ + placement_from(self.squares@, 7),
    {
        let ghost sq = self.squares@;
        let mut i: u8 = 0;
        while i < 8
            invariant
                i <= 8,
                sq == self.squares@,
                i < 8 ==> s@ + placement_from(sq, 7 - i) == old(s)@ + placement_from(sq, 7),
                i == 8 ==> s@ == old(s)@ + placement_from(sq, 7),
            decreases 8 - i,
        {
            let rank: u8 = 7 - i;
            let ghost before = s@;
            self.push_rank(s, rank);
            if rank > 0 {
                push_char(s, '/');
                assert(s@ + placement_from(sq, rank - 1) =~= before + placement_from(
                    sq,
                    rank as int,
                ));
            } else {
                assert(s@ =~= before + placement_from(sq, rank as int));
            }
            i = i + 1;
        }
    }

    /// The key of this position for repetition: the first four FEN fields.
    pub fn position_key(&self) -> (r: String)
        ensures
            r@ == key_of(
                self.squares@,
                self.to_move,
                self.castling_rights,
                self.en_passant_target,
            ),
    {
        let mut s = String::new();
        self.push_placement(&mut s);
        push_char(&mut s, ' ');
        push_char(
            &mut s,
            match self.to_move {
                Color::White => 'w',
                Color::Black => 'b',
            },
        );
        push_char(&mut s, ' ');
        push_castling(&mut s, self.castling_rights);
        push_char(&mut s, ' ');
        push_en_passant(&mut s, self.en_passant_target);
        assert(s@ =~= key_of(self.squares@, self.to_move, self.castling_rights, self.en_passant_target));
        s
    }

    /// Standard six-field FEN of the position.
    pub fn to_fen(&self) -> (r: String)
        ensures
            r@ == fen_of(*self),
    {
        let mut s = self.position_key();
        let ghost key = s@;
        push_char(&mut s, ' ');
        push_decimal(&mut s, self.halfmove_clock as u64);
        push_char(&mut s, ' ');
        push_decimal(&mut s, self.fullmove_number as u64);
        assert(s@ =~= fen_of(*self));
        s
    }

    fn push_drawn_rank(&self, s: &mut String, rank: u8)
        requires
            rank < 8,
        ensures
            final(s)@ == old(s)@ + drawn_rank(self.squares@, rank, 0),
    {
        let ghost sq = self.squares@;
        let mut file: u8 = 0;
        while file < 8
            invariant
                rank < 8,
                file <= 8,
                sq == self.squares@,
                s@ + drawn_rank(sq, rank, file as int) == old(s)@ + drawn_rank(sq, rank, 0),
            decreases 8 - file,
        {
            let ghost before = s@;
            let c = match self.get_piece(Position { file, rank }) {
                Some(p) => p.to_fen_char(),
                None => '.',
            };
            push_char(s, c);
            push_char(s, ' ');
            assert(s@ + drawn_rank(sq, rank, file + 1) =~= before + drawn_rank(
                sq,
                rank,
                file as int,
            ));
            file = file + 1;
        }
        push_char(s, '\n');
        assert(s@ =~= old(s)@ + drawn_rank(sq, rank, 0));
    }

    /// A plain-text drawing of the board, rank 8 at the top.
    pub fn display(&self) -> (r: String)
        ensures
            r@ == drawn_from(self.squares@, 7) + file_legend(),
    {
        let ghost sq = self.squares@;
        let mut s = String::new();
        let mut i: u8 = 0;
        while i < 8
            invariant
                i <= 8,
                sq == self.squares@,
                i < 8 ==> s@ + drawn_from(sq, 7 - i) == drawn_from(sq, 7),
                i == 8 ==> s@ == drawn_from(sq, 7),
            decreases 8 - i,
        {
            let rank: u8 = 7 - i;
            let ghost before = s@;
            push_char(&mut s, ((49 + rank) as u8) as char);
            push_char(&mut s, ' ');
            self.push_drawn_rank(&mut s, rank);
            if rank > 0 {
                assert(s@ + drawn_from(sq, rank - 1) =~= before + drawn_from(sq, rank as int));
            } else {
                assert(s@ =~= before + drawn_from(sq, rank as int));
            }
            i = i + 1;
        }
        let ghost before = s@;
        s.append("  a b c d e f g h\n");
        proof {
            reveal_strlit("  a b c d e f g h\n");
        }
        assert(s@ =~= before + file_legend());
        s
    }
}

/// Two placements show the same piece, by kind and color, on every square;
/// whether a piece has moved may differ.
pub open spec fn same_look(sq1: Seq<Option<Piece>>, sq2: Seq<Option<Piece>>) -> bool {
    forall|p: Position|
        p.valid() ==> (#[trigger] at(sq1, p) is Some) == (at(sq2, p) is Some) && (at(sq1, p) is Some
            ==> at(sq1, p)->0.piece_type == at(sq2, p)->0.piece_type && at(sq1, p)->0.color == at(
            sq2,
            p,
        )->0.color)
}

proof fn lemma_rank_text_look(sq1: Seq<Option<Piece>>, sq2: Seq<Option<Piece>>, rank: u8, file: int, run: nat)
    requires
        same_look(sq1, sq2),
        rank < 8,
        0 <= file,
    ensures
        rank_text(sq1, rank, file, run) == rank_text(sq2, rank, file, run),
    decreases 8 - file,
{
    if file < 8 {
        let p = Position { file: file as u8, rank };
        assert(at(sq1, p) is Some == at(sq2, p) is Some);
        lemma_rank_text_look(sq1, sq2, rank, file + 1, 0);
        lemma_rank_text_look(sq1, sq2, rank, file + 1, run + 1);
    }
}

proof fn lemma_placement_look(sq1: Seq<Option<Piece>>, sq2: Seq<Option<Piece>>, rank: int)
    requires
        same_look(sq1, sq2),
        rank <= 7,
    ensures
        placement_from(sq1, rank) == placement_from(sq2, rank),
    decreases rank,
{
    if rank <= 0 {
        lemma_rank_text_look(sq1, sq2, 0, 0, 0);
    } else {
        lemma_rank_text_look(sq1, sq2, rank as u8, 0, 0);
        lemma_placement_look(sq1, sq2, rank - 1);
    }
}

/// Two boards that show the same pieces (by kind and color) on every square
/// and agree on side to move, castling rights and en-passant square have the
/// same repetition key, whatever their clocks and whichever pieces have moved.
pub proof fn lemma_key_ignores_clocks_and_history(b1: Board, b2: Board)
    requires
        same_look(b1.squares@, b2.squares@),
        b1.to_move == b2.to_move,
        b1.castling_rights == b2.castling_rights,
        b1.en_passant_target == b2.en_passant_target,
    ensures
        key_of(b1.squares@, b1.to_move, b1.castling_rights, b1.en_passant_target) == key_of(
            b2.squares@,
            b2.to_move,
            b2.castling_rights,
            b2.en_passant_target,
        ),
{
    lemma_placement_look(b1.squares@, b2.squares@, 7);
}

} // verus!
