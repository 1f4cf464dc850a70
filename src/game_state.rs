use vstd::prelude::*;

use crate::board::{is_after, key_of, Board};
use crate::piece::{Color, Move, PieceType, Position};
use crate::rules::{checkmate, stalemate, valid_move, MoveValidator};
use crate::text::{decimal, extend_past, push_char, push_decimal, same_text};
use crate::utils::{current_timestamp, generate_id};

verus! {

#[derive(Clone, Copy, Debug, PartialEq, Eq, Structural)]
pub enum DrawReason {
    FiftyMoveRule,
    ThreefoldRepetition,
    InsufficientMaterial,
    Agreement,
}

#[derive(Clone, Copy, Debug, PartialEq, Eq, Structural)]
pub enum GameResult {
    Ongoing,
    Checkmate(Color),
    Stalemate,
    Draw(DrawReason),
    Resignation(Color),
    Timeout(Color),
}

/// One game: its board, its two seats, its result and its history.
#[derive(Debug)]
pub struct GameState {
    pub id: String,
    pub board: Board,
    pub white_player: Option<String>,
    pub black_player: Option<String>,
    pub result: GameResult,
    pub move_history: Vec<Move>,
    /// The repetition key of the position before the first move and after each move.
    pub position_history: Vec<String>,
    pub created_at: u64,
    pub last_move_at: u64,
    /// The side whose draw offer awaits an answer; a move withdraws it.
    pub draw_offer: Option<Color>,
}

/// Whether a seat holds the given player.
pub open spec fn seat_is(seat: Option<String>, id: Seq<char>) -> bool {
    seat matches Some(s) && s@ == id
}

pub open spec fn key_seq(h: Seq<String>) -> Seq<Seq<char>> {
    h.map_values(|s: String| s@)
}

/// How many of the first `n` keys equal `k`.
pub open spec fn count_key(keys: Seq<Seq<char>>, k: Seq<char>, n: int) -> nat
    decreases n,
{
    if n <= 0 {
        0
    } else {
        count_key(keys, k, n - 1) + if keys[n - 1] == k {
            1nat
        } else {
            0nat
        }
    }
}

/// The position with key `k` occurs at least three times in the history.
pub open spec fn threefold(keys: Seq<Seq<char>>, k: Seq<char>) -> bool {
    count_key(keys, k, keys.len() as int) >= 3
}

pub open spec fn board_key(b: Board) -> Seq<char> {
    key_of(b.squares@, b.to_move, b.castling_rights, b.en_passant_target)
}

/// The kinds of the pieces of `c` among the first `n` squares, in a1..h8 order.
pub open spec fn kinds_of(sq: Seq<Option<crate::piece::Piece>>, c: Color, n: int) -> Seq<PieceType>
    decreases n,
{
    if n <= 0 {
        Seq::empty()
    } else {
        kinds_of(sq, c, n - 1) + match sq[n - 1] {
            Some(p) => if p.color == c {
                seq![p.piece_type]
            } else {
                Seq::empty()
            },
            None => Seq::empty(),
        }
    }
}

pub open spec fn minor_count(s: Seq<PieceType>) -> nat
    decreases s.len(),
{
    if s.len() == 0 {
        0
    } else {
        minor_count(s.drop_last()) + if s.last() == PieceType::Bishop || s.last()
            == PieceType::Knight {
            1nat
        } else {
            0nat
        }
    }
}

/// A side cannot mate with these pieces: no pawn, rook or queen, and at most
/// one bishop or knight.
pub open spec fn lone_minor(s: Seq<PieceType>) -> bool {
    &&& forall|i: int|
        0 <= i < s.len() ==> #[trigger] s[i] != PieceType::Pawn && s[i] != PieceType::Rook && s[i]
            != PieceType::Queen
    &&& minor_count(s) <= 1
}

pub open spec fn insufficient(sq: Seq<Option<crate::piece::Piece>>) -> bool {
    lone_minor(kinds_of(sq, Color::White, 64)) && lone_minor(kinds_of(sq, Color::Black, 64))
}

/// The result that the position after a move calls for, checked in order:
/// checkmate, stalemate, the fifty-move rule, threefold repetition,
/// insufficient material.
pub open spec fn end_of(b: Board, keys: Seq<Seq<char>>) -> GameResult {
    if checkmate(b) {
        GameResult::Checkmate(b.to_move.other())
    } else if stalemate(b) {
        GameResult::Stalemate
    } else if b.halfmove_clock >= 100 {
        GameResult::Draw(DrawReason::FiftyMoveRule)
    } else if threefold(keys, board_key(b)) {
        GameResult::Draw(DrawReason::ThreefoldRepetition)
    } else if insufficient(b.squares@) {
        GameResult::Draw(DrawReason::InsufficientMaterial)
    } else {
        GameResult::Ongoing
    }
}

/// The value an optional reference points to.
pub open spec fn deref_opt<T>(r: Option<&T>) -> Option<T> {
    match r {
        Some(x) => Some(*x),
        None => None,
    }
}

/// PGN result token.
pub open spec fn result_token(r: GameResult) -> Seq<char> {
    match r {
        GameResult::Checkmate(Color::White) => seq!['1', '-', '0'],
        GameResult::Checkmate(Color::Black) => seq!['0', '-', '1'],
        GameResult::Stalemate => seq!['1', '/', '2', '-', '1', '/', '2'],
        GameResult::Draw(_) => seq!['1', '/', '2', '-', '1', '/', '2'],
        GameResult::Resignation(Color::White) => seq!['0', '-', '1'],
        GameResult::Resignation(Color::Black) => seq!['1', '-', '0'],
        GameResult::Timeout(Color::White) => seq!['0', '-', '1'],
        GameResult::Timeout(Color::Black) => seq!['1', '-', '0'],
        GameResult::Ongoing => seq!['*'],
    }
}

/// The text of the first `n` moves of a game as PGN writes them: a move
/// number before each White move, each move in coordinate notation.
pub open spec fn moves_text(ms: Seq<Move>, n: int) -> Seq<char>
    decreases n,
{
    if n <= 0 {
        Seq::empty()
    } else {
        moves_text(ms, n - 1) + (if (n - 1) % 2 == 0 {
            decimal(((n - 1) / 2 + 1) as nat) + seq!['.']
        } else {
            Seq::empty()
        }) + seq![' '] + ms[n - 1].notation() + seq![' ']
    }
}

pub open spec fn name_or_unknown(seat: Option<String>) -> Seq<char> {
    match seat {
        Some(s) => s@,
        None => "Unknown"@,
    }
}

pub open spec fn pgn_of(g: GameState) -> Seq<char> {
    "[Event \"Chess game\"]\n"@ + "[Site \"Chess Server\"]\n"@ + "[Date \""@ + decimal(
        g.created_at as nat,
    ) + "\"]\n"@ + "[White \""@ + name_or_unknown(g.white_player) + "\"]\n"@ + "[Black \""@
        + name_or_unknown(g.black_player) + "\"]\n"@ + "[Result \""@ + result_token(g.result)
        + "\"]\n"@ + "\n"@ + moves_text(g.move_history@, g.move_history@.len() as int) + seq![' ']
        + result_token(g.result)
}

/// A summary of a game for listings.
#[derive(Debug)]
pub struct GameInfo {
    pub id: String,
    pub white_player: Option<String>,
    pub black_player: Option<String>,
    pub to_move: Color,
    pub result: GameResult,
    pub move_count: usize,
    pub is_in_check: bool,
    pub last_move: Option<Move>,
    pub created_at: u64,
    pub last_move_at: u64,
}

fn copy_seat(seat: &Option<String>) -> (r: Option<String>)
    ensures
        r == *seat,
{
    match seat {
        Some(s) => Some(s.clone()),
        None => None,
    }
}

fn push_result_token(s: &mut String, r: GameResult)
    ensures
        final(s)@ == old(s)@ + result_token(r),
{
    let ghost before = s@;
    match r {
        GameResult::Checkmate(Color::White) | GameResult::Resignation(Color::Black)
        | GameResult::Timeout(Color::Black) => {
            push_char(s, '1');
            push_char(s, '-');
            push_char(s, '0');
        },
        GameResult::Checkmate(Color::Black) | GameResult::Resignation(Color::White)
        | GameResult::Timeout(Color::White) => {
            push_char(s, '0');
            push_char(s, '-');
            push_char(s, '1');
        },
        GameResult::Stalemate | GameResult::Draw(_) => {
            push_char(s, '1');
            push_char(s, '/');
            push_char(s, '2');
            push_char(s, '-');
            push_char(s, '1');
            push_char(s, '/');
            push_char(s, '2');
        },
        GameResult::Ongoing => {
            push_char(s, '*');
        },
    }
    assert(s@ =~= before + result_token(r));
}

fn push_seat_name(s: &mut String, seat: &Option<String>)
    ensures
        final(s)@ == old(s)@ + name_or_unknown(*seat),
{
    match seat {
        Some(name) => s.append(name.as_str()),
        None => s.append("Unknown"),
    }
}

impl GameState {
    /// The color of the seat a player holds, White first.
    pub open spec fn color_of(self, id: Seq<char>) -> Option<Color> {
        if seat_is(self.white_player, id) {
            Some(Color::White)
        } else if seat_is(self.black_player, id) {
            Some(Color::Black)
        } else {
            None
        }
    }

    pub open spec fn keys(self) -> Seq<Seq<char>> {
        key_seq(self.position_history@)
    }

    pub open spec fn current_key(self) -> Seq<char> {
        key_of(
            self.board.squares@,
            self.board.to_move,
            self.board.castling_rights,
            self.board.en_passant_target,
        )
    }

    /// A fresh game from the starting position, with no players.
    pub fn new() -> (r: GameState)
        ensures
            crate::board::is_start(r.board),
            r.white_player is None,
            r.black_player is None,
            r.result == GameResult::Ongoing,
            r.move_history@.len() == 0,
            r.keys() == seq![r.current_key()],
            r.draw_offer is None,
    {
        let id = generate_id();
        let now = current_timestamp();
        GameState::with_id(id, now)
    }

    /// A fresh game from the starting position, under the given identifier
    /// and creation time.
    pub fn with_id(id: String, now: u64) -> (r: GameState)
        ensures
            r.id@ == id@,
            crate::board::is_start(r.board),
            r.white_player is None,
            r.black_player is None,
            r.result == GameResult::Ongoing,
            r.move_history@.len() == 0,
            r.keys() == seq![r.current_key()],
            r.created_at == now,
            r.last_move_at == now,
            r.draw_offer is None,
    {
        let board = Board::new();
        let key = board.position_key();
        let mut history: Vec<String> = Vec::new();
        history.push(key);
        let r = GameState {
            id,
            board,
            white_player: None,
            black_player: None,
            result: GameResult::Ongoing,
            move_history: Vec::new(),
            position_history: history,
            created_at: now,
            last_move_at: now,
            draw_offer: None,
        };
        assert(r.keys() =~= seq![r.current_key()]);
        r
    }

    /// A fresh game whose position history starts with the given text. The
    /// board itself starts from the usual position.
    pub fn from_fen(fen: &str) -> (r: Result<GameState, String>)
        ensures
            r matches Ok(g) && g.keys() == seq![fen@] && g.result == GameResult::Ongoing,
    {
        let mut game = GameState::new();
        let mut history: Vec<String> = Vec::new();
        history.push(fen.to_owned());
        game.position_history = history;
        assert(game.keys() =~= seq![fen@]);
        Ok(game)
    }

    /// Seats a player: on the asked side if it is free, else on the first free
    /// side when none is asked.
    pub fn add_player(&mut self, player_id: String, color: Option<Color>) -> (r: Result<
        Color,
        String,
    >)
        ensures
            match color {
                Some(Color::White) => if old(self).white_player is None {
                    r == Ok::<Color, String>(Color::White) && final(self).white_player
                        == Some(player_id) && final(self).black_player == old(self).black_player
                } else {
                    r is Err && final(self).white_player == old(self).white_player
                        && final(self).black_player == old(self).black_player
                },
                Some(Color::Black) => if old(self).black_player is None {
                    r == Ok::<Color, String>(Color::Black) && final(self).black_player
                        == Some(player_id) && final(self).white_player == old(self).white_player
                } else {
                    r is Err && final(self).white_player == old(self).white_player
                        && final(self).black_player == old(self).black_player
                },
                None => if old(self).white_player is None {
                    r == Ok::<Color, String>(Color::White) && final(self).white_player
                        == Some(player_id) && final(self).black_player == old(self).black_player
                } else if old(self).black_player is None {
                    r == Ok::<Color, String>(Color::Black) && final(self).black_player
                        == Some(player_id) && final(self).white_player == old(self).white_player
                } else {
                    r is Err && final(self).white_player == old(self).white_player
                        && final(self).black_player == old(self).black_player
                },
            },
            r is Ok <==> seat_for(*old(self), color) is Some,
            r is Ok ==> r == Ok::<Color, String>(seat_for(*old(self), color)->0),
            r is Ok ==> final(self).color_of(player_id@) == seat_for(*old(self), color) || old(
                self,
            ).color_of(player_id@) is Some,
            r is Err ==> *final(self) == *old(self),
            final(self).id == old(self).id,
            final(self).board == old(self).board,
            final(self).result == old(self).result,
            final(self).move_history@ == old(self).move_history@,
            final(self).keys() == old(self).keys(),
    {
        match color {
            Some(Color::White) => {
                if self.white_player.is_some() {
                    return Err("White player already assigned".to_string());
                }
                self.white_player = Some(player_id);
                Ok(Color::White)
            },
            Some(Color::Black) => {
                if self.black_player.is_some() {
                    return Err("Black player already assigned".to_string());
                }
                self.black_player = Some(player_id);
                Ok(Color::Black)
            },
            None => {
                if self.white_player.is_none() {
                    self.white_player = Some(player_id);
                    Ok(Color::White)
                } else if self.black_player.is_none() {
                    self.black_player = Some(player_id);
                    Ok(Color::Black)
                } else {
                    Err("Game is full".to_string())
                }
            },
        }
    }

    /// Frees every seat the player holds.
    pub fn remove_player(&mut self, player_id: &str)
        ensures
            final(self).white_player == (if seat_is(old(self).white_player, player_id@) {
                None
            } else {
                old(self).white_player
            }),
            final(self).black_player == (if seat_is(old(self).black_player, player_id@) {
                None
            } else {
                old(self).black_player
            }),
            final(self).id == old(self).id,
            final(self).board == old(self).board,
            final(self).result == old(self).result,
            final(self).move_history@ == old(self).move_history@,
            final(self).keys() == old(self).keys(),
    {
        if seat_holds(&self.white_player, player_id) {
            self.white_player = None;
        }
        if seat_holds(&self.black_player, player_id) {
            self.black_player = None;
        }
    }

    pub fn is_player_in_game(&self, player_id: &str) -> (r: bool)
        ensures
            r == (seat_is(self.white_player, player_id@) || seat_is(
                self.black_player,
                player_id@,
            )),
    {
        seat_holds(&self.white_player, player_id) || seat_holds(&self.black_player, player_id)
    }

    pub fn get_player_color(&self, player_id: &str) -> (r: Option<Color>)
        ensures
            r == self.color_of(player_id@),
    {
        if seat_holds(&self.white_player, player_id) {
            return Some(Color::White);
        }
        if seat_holds(&self.black_player, player_id) {
            return Some(Color::Black);
        }
        None
    }

    pub fn is_ready_to_start(&self) -> (r: bool)
        ensures
            r == (self.white_player is Some && self.black_player is Some),
    {
        self.white_player.is_some() && self.black_player.is_some()
    }

    /// Plays a move for a player: the game must be going on, the player must
    /// hold the side to move, and the move must be legal. Then the move and
    /// the new position are recorded, any draw offer lapses, and the result is
    /// settled by `check_game_end`.
    pub fn make_move(&mut self, player_id: &str, chess_move: Move) -> (r: Result<(), String>)
        ensures
            r is Ok <==> (old(self).result == GameResult::Ongoing && old(self).color_of(
                player_id@,
            ) == Some(old(self).board.to_move) && valid_move(old(self).board, chess_move)),
            r is Ok ==> {
                &&& is_after(final(self).board, old(self).board, chess_move)
                &&& final(self).move_history@ == old(self).move_history@.push(chess_move)
                &&& final(self).keys() == old(self).keys().push(final(self).current_key())
                &&& final(self).result == end_of(final(self).board, final(self).keys())
                &&& final(self).draw_offer is None
            },
            r is Err ==> {
                &&& final(self).board == old(self).board
                &&& final(self).result == old(self).result
                &&& final(self).move_history@ == old(self).move_history@
                &&& final(self).keys() == old(self).keys()
            },
            final(self).white_player == old(self).white_player,
            final(self).black_player == old(self).black_player,
            final(self).id == old(self).id,
    {
        if self.result != GameResult::Ongoing {
            return Err("Game is already finished".to_string());
        }
        let player_color = match self.get_player_color(player_id) {
            Some(c) => c,
            None => {
                return Err("Player not in this game".to_string());
            },
        };
        if player_color != self.board.get_to_move() {
            return Err("Not your turn".to_string());
        }
        if !MoveValidator::is_valid_move(&self.board, &chess_move) {
            return Err("Invalid move".to_string());
        }
        assert(crate::board::applicable(self.board, chess_move));
        match self.board.make_move(&chess_move) {
            Ok(()) => {},
            Err(e) => {
                return Err(e);
            },
        }
        self.move_history.push(chess_move);
        let ghost old_keys = self.keys();
        let key = self.board.position_key();
        self.position_history.push(key);
        assert(self.keys() =~= old_keys.push(self.current_key()));
        self.last_move_at = current_timestamp();
        self.draw_offer = None;
        self.check_game_end();
        Ok(())
    }

    /// Settles the result of the current position: checkmate (won by the side
    /// that just moved), stalemate, the fifty-move rule, threefold repetition,
    /// insufficient material, in that order. Otherwise the result stays.
    pub fn check_game_end(&mut self)
        ensures
            final(self).result == (if end_of(old(self).board, old(self).keys())
                == GameResult::Ongoing {
                old(self).result
            } else {
                end_of(old(self).board, old(self).keys())
            }),
            final(self).board == old(self).board,
            final(self).move_history@ == old(self).move_history@,
            final(self).keys() == old(self).keys(),
            final(self).white_player == old(self).white_player,
            final(self).black_player == old(self).black_player,
            final(self).draw_offer == old(self).draw_offer,
            final(self).id == old(self).id,
    {
        if MoveValidator::is_checkmate(&self.board) {
            self.result = GameResult::Checkmate(self.board.get_to_move().opposite());
            return ;
        }
        if MoveValidator::is_stalemate(&self.board) {
            self.result = GameResult::Stalemate;
            return ;
        }
        if MoveValidator::is_draw_by_fifty_move_rule(&self.board) {
            self.result = GameResult::Draw(DrawReason::FiftyMoveRule);
            return ;
        }
        if self.is_threefold_repetition() {
            self.result = GameResult::Draw(DrawReason::ThreefoldRepetition);
            return ;
        }
        if self.is_insufficient_material() {
            self.result = GameResult::Draw(DrawReason::InsufficientMaterial);
            return ;
        }
    }

    /// The current position's key occurs at least three times in the history.
    pub fn is_threefold_repetition(&self) -> (r: bool)
        ensures
            r == threefold(self.keys(), board_key(self.board)),
    {
        let n = self.position_history.len();
        let ghost keys = self.keys();
        let current = self.board.position_key();
        let mut count: u64 = 0;
        let mut i: usize = 0;
        while i < n
            invariant
                n == self.position_history@.len(),
                keys == self.keys(),
                current@ == board_key(self.board),
                i <= n,
                count == count_key(keys, current@, i as int),
                count <= i,
            decreases n - i,
        {
            if same_text(self.position_history[i].as_str(), current.as_str()) {
                count = count + 1;
            }
            i = i + 1;
        }
        count >= 3
    }

    /// Neither side has mating material.
    pub fn is_insufficient_material(&self) -> (r: bool)
        ensures
            r == insufficient(self.board.squares@),
    {
        let ghost sq = self.board.squares@;
        let mut white_pieces: Vec<PieceType> = Vec::new();
        let mut black_pieces: Vec<PieceType> = Vec::new();
        let mut i: usize = 0;
        while i < 64
            invariant
                i <= 64,
                sq == self.board.squares@,
                white_pieces@ == kinds_of(sq, Color::White, i as int),
                black_pieces@ == kinds_of(sq, Color::Black, i as int),
            decreases 64 - i,
        {
            match self.board.squares[i] {
                Some(piece) => {
                    match piece.color {
                        Color::White => white_pieces.push(piece.piece_type),
                        Color::Black => black_pieces.push(piece.piece_type),
                    }
                },
                None => {},
            }
            assert(white_pieces@ =~= kinds_of(sq, Color::White, i + 1));
            assert(black_pieces@ =~= kinds_of(sq, Color::Black, i + 1));
            i = i + 1;
        }
        Self::is_insufficient_material_for_color(white_pieces.as_slice())
            && Self::is_insufficient_material_for_color(black_pieces.as_slice())
    }

    /// No pawn, rook or queen, and at most one bishop or knight.
    pub fn is_insufficient_material_for_color(pieces: &[PieceType]) -> (r: bool)
        ensures
            r == lone_minor(pieces@),
    {
        let mut minors: u64 = 0;
        let mut i: usize = 0;
        while i < pieces.len()
            invariant
                i <= pieces@.len(),
                minors == minor_count(pieces@.subrange(0, i as int)),
                minors <= i,
                forall|j: int|
                    0 <= j < i ==> #[trigger] pieces@[j] != PieceType::Pawn && pieces@[j]
                        != PieceType::Rook && pieces@[j] != PieceType::Queen,
            decreases pieces@.len() - i,
        {
            assert(pieces@.subrange(0, i + 1).drop_last() =~= pieces@.subrange(0, i as int));
            match pieces[i] {
                PieceType::King => {},
                PieceType::Bishop | PieceType::Knight => {
                    minors = minors + 1;
                },
                _ => {
                    return false;
                },
            }
            i = i + 1;
        }
        assert(pieces@.subrange(0, pieces@.len() as int) =~= pieces@);
        minors <= 1
    }

    /// A player gives up; the game records which side resigned.
    pub fn resign(&mut self, player_id: &str) -> (r: Result<(), String>)
        ensures
            r is Ok <==> (old(self).result == GameResult::Ongoing && old(self).color_of(
                player_id@,
            ) is Some),
            r is Ok ==> *final(self) == (GameState {
                result: GameResult::Resignation(old(self).color_of(player_id@)->0),
                last_move_at: final(self).last_move_at,
                ..*old(self)
            }),
            r is Err ==> *final(self) == *old(self),
    {
        if self.result != GameResult::Ongoing {
            return Err("Game is already finished".to_string());
        }
        let player_color = match self.get_player_color(player_id) {
            Some(c) => c,
            None => {
                return Err("Player not in this game".to_string());
            },
        };
        self.result = GameResult::Resignation(player_color);
        self.last_move_at = current_timestamp();
        Ok(())
    }

    /// A player offers a draw. If the other side's offer is pending, this
    /// accepts it and the game is drawn by agreement; otherwise the offer is
    /// recorded until the next move.
    pub fn offer_draw(&mut self, player_id: &str) -> (r: Result<(), String>)
        ensures
            r is Ok <==> (old(self).result == GameResult::Ongoing && old(self).color_of(
                player_id@,
            ) is Some),
            r is Ok ==> {
                let c = old(self).color_of(player_id@)->0;
                if old(self).draw_offer == Some(c.other()) {
                    *final(self) == (GameState {
                        result: GameResult::Draw(DrawReason::Agreement),
                        draw_offer: None,
                        last_move_at: final(self).last_move_at,
                        ..*old(self)
                    })
                } else {
                    *final(self) == (GameState { draw_offer: Some(c), ..*old(self) })
                }
            },
            r is Err ==> *final(self) == *old(self),
    {
        if self.result != GameResult::Ongoing {
            return Err("Game is already finished".to_string());
        }
        let color = match self.get_player_color(player_id) {
            Some(c) => c,
            None => {
                return Err("Player not in this game".to_string());
            },
        };
        match self.draw_offer {
            Some(offered) => {
                if offered == color.opposite() {
                    self.result = GameResult::Draw(DrawReason::Agreement);
                    self.draw_offer = None;
                    self.last_move_at = current_timestamp();
                    return Ok(());
                }
            },
            None => {},
        }
        self.draw_offer = Some(color);
        Ok(())
    }

    /// A player ran out of time; the game records which side it was.
    pub fn timeout(&mut self, player_id: &str) -> (r: Result<(), String>)
        ensures
            r is Ok <==> (old(self).result == GameResult::Ongoing && old(self).color_of(
                player_id@,
            ) is Some),
            r is Ok ==> *final(self) == (GameState {
                result: GameResult::Timeout(old(self).color_of(player_id@)->0),
                last_move_at: final(self).last_move_at,
                ..*old(self)
            }),
            r is Err ==> *final(self) == *old(self),
    {
        if self.result != GameResult::Ongoing {
            return Err("Game is already finished".to_string());
        }
        let player_color = match self.get_player_color(player_id) {
            Some(c) => c,
            None => {
                return Err("Player not in this game".to_string());
            },
        };
        self.result = GameResult::Timeout(player_color);
        self.last_move_at = current_timestamp();
        Ok(())
    }

    /// The legal moves of the side to move while the game goes on.
    pub fn get_legal_moves(&self) -> (r: Vec<Move>)
        ensures
            forall|m: Move|
                #![trigger r@.contains(m)]
                r@.contains(m) <==> (self.result == GameResult::Ongoing && valid_move(
                    self.board,
                    m,
                )),
    {
        if self.result != GameResult::Ongoing {
            return Vec::new();
        }
        MoveValidator::generate_legal_moves(&self.board)
    }

    /// The legal moves, for the player who holds the side to move; none for
    /// anyone else.
    pub fn get_legal_moves_for_player(&self, player_id: &str) -> (r: Vec<Move>)
        ensures
            forall|m: Move|
                #![trigger r@.contains(m)]
                r@.contains(m) <==> (self.color_of(player_id@) == Some(self.board.to_move)
                    && self.result == GameResult::Ongoing && valid_move(self.board, m)),
    {
        match self.get_player_color(player_id) {
            Some(c) => {
                if c == self.board.get_to_move() {
                    return self.get_legal_moves();
                }
            },
            None => {},
        }
        Vec::new()
    }

    pub fn is_in_check(&self) -> (r: bool)
        ensures
            r == crate::rules::in_check(self.board.squares@, self.board.to_move),
    {
        MoveValidator::is_in_check(&self.board, self.board.get_to_move())
    }

    /// The player who holds the side to move.
    pub fn get_current_player(&self) -> (r: Option<&String>)
        ensures
            deref_opt(r) == (match self.board.to_move {
                Color::White => self.white_player,
                Color::Black => self.black_player,
            }),
    {
        match self.board.get_to_move() {
            Color::White => self.white_player.as_ref(),
            Color::Black => self.black_player.as_ref(),
        }
    }

    /// The player on the other side from `player_id`.
    pub fn get_opponent(&self, player_id: &str) -> (r: Option<&String>)
        ensures
            deref_opt(r) == (if seat_is(self.white_player, player_id@) {
                self.black_player
            } else if seat_is(self.black_player, player_id@) {
                self.white_player
            } else {
                None
            }),
    {
        if seat_holds(&self.white_player, player_id) {
            return self.black_player.as_ref();
        }
        if seat_holds(&self.black_player, player_id) {
            return self.white_player.as_ref();
        }
        None
    }

    pub fn get_move_count(&self) -> (r: usize)
        ensures
            r == self.move_history@.len(),
    {
        self.move_history.len()
    }

    pub fn get_last_move(&self) -> (r: Option<&Move>)
        ensures
            deref_opt(r) == (if self.move_history@.len() == 0 {
                None
            } else {
                Some(self.move_history@.last())
            }),
    {
        let n = self.move_history.len();
        if n == 0 {
            None
        } else {
            Some(&self.move_history[n - 1])
        }
    }


    /// Every recorded move stands between squares of the board.
    pub open spec fn moves_on_board(self) -> bool {
        forall|i: int|
            0 <= i < self.move_history@.len() ==> (#[trigger] self.move_history@[i]).from.valid()
                && self.move_history@[i].to.valid()
    }

    /// The game in PGN: the seven header tags, then the moves and the result.
    pub fn to_pgn(&self) -> (r: String)
        requires
            self.moves_on_board(),
        ensures
            r@ == pgn_of(*self),
    {
        let mut pgn = String::new();
        pgn.append("[Event \"Chess game\"]\n");
        pgn.append("[Site \"Chess Server\"]\n");
        pgn.append("[Date \"");
        let date = Self::format_date(self.created_at);
        pgn.append(date.as_str());
        pgn.append("\"]\n");
        pgn.append("[White \"");
        push_seat_name(&mut pgn, &self.white_player);
        pgn.append("\"]\n");
        pgn.append("[Black \"");
        push_seat_name(&mut pgn, &self.black_player);
        pgn.append("\"]\n");
        pgn.append("[Result \"");
        push_result_token(&mut pgn, self.result);
        pgn.append("\"]\n");
        pgn.append("\n");
        let ghost head = pgn@;
        let n = self.move_history.len();
        let mut i: usize = 0;
        while i < n
            invariant
                n == self.move_history@.len(),
                i <= n,
                self.moves_on_board(),
                pgn@ == head + moves_text(self.move_history@, i as int),
            decreases n - i,
        {
            let ghost before = pgn@;
            if i % 2 == 0 {
                push_decimal(&mut pgn, (i / 2 + 1) as u64);
                push_char(&mut pgn, '.');
            }
            push_char(&mut pgn, ' ');
            let m = self.move_history[i];
            assert(m.from.valid() && m.to.valid());
            let text = m.to_algebraic();
            pgn.append(text.as_str());
            push_char(&mut pgn, ' ');
            assert(pgn@ =~= head + moves_text(self.move_history@, i + 1));
            i = i + 1;
        }
        push_char(&mut pgn, ' ');
        push_result_token(&mut pgn, self.result);
        assert(pgn@ =~= pgn_of(*self));
        pgn
    }

    /// A timestamp as text: its decimal seconds.
    pub fn format_date(timestamp: u64) -> (r: String)
        ensures
            r@ == decimal(timestamp as nat),
    {
        let mut s = String::new();
        push_decimal(&mut s, timestamp);
        assert(s@ =~= decimal(timestamp as nat));
        s
    }

    pub fn get_game_info(&self) -> (r: GameInfo)
        ensures
            r.id@ == self.id@,
            r.white_player == self.white_player,
            r.black_player == self.black_player,
            r.to_move == self.board.to_move,
            r.result == self.result,
            r.move_count == self.move_history@.len(),
            r.is_in_check == crate::rules::in_check(self.board.squares@, self.board.to_move),
            r.last_move == (if self.move_history@.len() == 0 {
                None
            } else {
                Some(self.move_history@.last())
            }),
            r.created_at == self.created_at,
            r.last_move_at == self.last_move_at,
    {
        let last_move = match self.get_last_move() {
            Some(m) => Some(*m),
            None => None,
        };
        GameInfo {
            id: self.id.clone(),
            white_player: copy_seat(&self.white_player),
            black_player: copy_seat(&self.black_player),
            to_move: self.board.get_to_move(),
            result: self.result,
            move_count: self.move_history.len(),
            is_in_check: self.is_in_check(),
            last_move,
            created_at: self.created_at,
            last_move_at: self.last_move_at,
        }
    }
}

/// Whether a seat holds the given player.
fn seat_holds(seat: &Option<String>, player_id: &str) -> (r: bool)
    ensures
        r == seat_is(*seat, player_id@),
{
    match seat {
        Some(s) => same_text(s.as_str(), player_id),
        None => false,
    }
}

/// The first index at or after `i` of a game with the given identifier.
pub open spec fn find_game(gs: Seq<GameState>, id: Seq<char>, i: int) -> Option<int>
    decreases gs.len() - i,
{
    if i < 0 || i >= gs.len() {
        None
    } else if gs[i].id@ == id {
        Some(i)
    } else {
        find_game(gs, id, i + 1)
    }
}

/// No game has the identifier.
pub open spec fn game_id_free(gs: Seq<GameState>, id: Seq<char>) -> bool {
    forall|j: int| 0 <= j < gs.len() ==> (#[trigger] gs[j]).id@ != id
}

/// No two games share an identifier.
pub open spec fn game_ids_unique(gs: Seq<GameState>) -> bool {
    forall|a: int, b: int| 0 <= a < b < gs.len() ==> #[trigger] gs[a].id@ != #[trigger] gs[b].id@
}

/// The text of each entry of a list of strings.
pub open spec fn texts(v: Seq<String>) -> Seq<Seq<char>> {
    v.map_values(|s: String| s@)
}

/// `n` is the player index `o` with the game recorded under the player: at
/// the end of the player's list, or in a new entry for a new player.
pub open spec fn recorded(
    o: Seq<(String, Vec<String>)>,
    n: Seq<(String, Vec<String>)>,
    pid: Seq<char>,
    gid: Seq<char>,
) -> bool {
    match find_player(o, pid, 0) {
        Some(k) => {
            &&& n.len() == o.len()
            &&& forall|j: int| 0 <= j < o.len() && j != k ==> n[j] == o[j]
            &&& n[k].0 == o[k].0
            &&& texts(n[k].1@) == texts(o[k].1@).push(gid)
        },
        None => {
            &&& n.len() == o.len() + 1
            &&& n.drop_last() == o
            &&& n.last().0@ == pid
            &&& texts(n.last().1@) == seq![gid]
        },
    }
}

proof fn lemma_find_game_found(gs: Seq<GameState>, id: Seq<char>, i: int)
    ensures
        find_game(gs, id, i) matches Some(k) ==> 0 <= k < gs.len() && gs[k].id@ == id,
    decreases gs.len() - i,
{
    if 0 <= i < gs.len() {
        lemma_find_game_found(gs, id, i + 1);
    }
}

proof fn lemma_find_game_none(gs: Seq<GameState>, id: Seq<char>, i: int)
    requires
        0 <= i,
        find_game(gs, id, i) is None,
    ensures
        forall|j: int| i <= j < gs.len() ==> (#[trigger] gs[j]).id@ != id,
    decreases gs.len() - i,
{
    if i < gs.len() {
        lemma_find_game_none(gs, id, i + 1);
    }
}

/// The first index at or after `i` of a player's entry in the game index.
pub open spec fn find_player(ps: Seq<(String, Vec<String>)>, id: Seq<char>, i: int) -> Option<int>
    decreases ps.len() - i,
{
    if i < 0 || i >= ps.len() {
        None
    } else if ps[i].0@ == id {
        Some(i)
    } else {
        find_player(ps, id, i + 1)
    }
}

/// The games that a list of identifiers names, in its order, skipping
/// identifiers of no game.
pub open spec fn games_named(gs: Seq<GameState>, ids: Seq<String>, n: int) -> Seq<GameState>
    decreases n,
{
    if n <= 0 {
        Seq::empty()
    } else {
        games_named(gs, ids, n - 1) + match find_game(gs, ids[n - 1]@, 0) {
            Some(i) => seq![gs[i]],
            None => Seq::empty(),
        }
    }
}

/// The seat `add_player` gives for a color wish, if one is free.
pub open spec fn seat_for(g: GameState, color: Option<Color>) -> Option<Color> {
    match color {
        Some(Color::White) => if g.white_player is None {
            Some(Color::White)
        } else {
            None
        },
        Some(Color::Black) => if g.black_player is None {
            Some(Color::Black)
        } else {
            None
        },
        None => if g.white_player is None {
            Some(Color::White)
        } else if g.black_player is None {
            Some(Color::Black)
        } else {
            None
        },
    }
}

/// `GameState::make_move` accepts this move from this player.
pub open spec fn move_accepted(g: GameState, id: Seq<char>, m: Move) -> bool {
    g.result == GameResult::Ongoing && g.color_of(id) == Some(g.board.to_move) && valid_move(
        g.board,
        m,
    )
}

/// All games of the server, and for each player the games joined.
#[derive(Debug)]
pub struct GameManager {
    pub games: Vec<GameState>,
    pub player_games: Vec<(String, Vec<String>)>,
}

impl GameManager {
    pub open spec fn index_of(self, id: Seq<char>) -> Option<int> {
        find_game(self.games@, id, 0)
    }

    pub fn new() -> (r: GameManager)
        ensures
            r.games@.len() == 0,
            r.player_games@.len() == 0,
    {
        GameManager { games: Vec::new(), player_games: Vec::new() }
    }

    fn find(&self, game_id: &str) -> (r: Option<usize>)
        ensures
            r matches Some(i) ==> self.index_of(game_id@) == Some(i as int) && i < self.games@.len(),
            r is None ==> self.index_of(game_id@) is None,
    {
        let mut i: usize = 0;
        while i < self.games.len()
            invariant
                i <= self.games@.len(),
                find_game(self.games@, game_id@, 0) == find_game(self.games@, game_id@, i as int),
            decreases self.games@.len() - i,
        {
            if same_text(self.games[i].id.as_str(), game_id) {
                return Some(i);
            }
            i = i + 1;
        }
        None
    }

    fn find_player_entry(&self, player_id: &str) -> (r: Option<usize>)
        ensures
            r matches Some(i) ==> find_player(self.player_games@, player_id@, 0) == Some(i as int)
                && i < self.player_games@.len(),
            r is None ==> find_player(self.player_games@, player_id@, 0) is None,
    {
        let mut i: usize = 0;
        while i < self.player_games.len()
            invariant
                i <= self.player_games@.len(),
                find_player(self.player_games@, player_id@, 0) == find_player(
                    self.player_games@,
                    player_id@,
                    i as int,
                ),
            decreases self.player_games@.len() - i,
        {
            if same_text(self.player_games[i].0.as_str(), player_id) {
                return Some(i);
            }
            i = i + 1;
        }
        None
    }

    /// Opens a new game from the starting position and returns its identifier.
    pub fn create_game(&mut self) -> (r: String)
        ensures
            final(self).games@.len() == old(self).games@.len() + 1,
            final(self).games@.drop_last() == old(self).games@,
            final(self).games@.last().id@ == r@,
            game_id_free(old(self).games@, r@),
            final(self).games@.last().result == GameResult::Ongoing,
            final(self).games@.last().white_player is None,
            final(self).games@.last().black_player is None,
            final(self).games@.last().move_history@.len() == 0,
            final(self).games@.last().keys() == seq![final(self).games@.last().current_key()],
            final(self).games@.last().draw_offer is None,
            crate::board::is_start(final(self).games@.last().board),
            final(self).player_games@ == old(self).player_games@,
            game_ids_unique(old(self).games@) ==> game_ids_unique(final(self).games@),
    {
        let mut game = GameState::new();
        let given = game.id;
        game.id = self.fresh_id(given);
        let game_id = game.id.clone();
        self.games.push(game);
        proof {
            assert(self.games@.drop_last() =~= old(self).games@);
            if game_ids_unique(old(self).games@) {
                assert forall|a: int, b: int|
                    0 <= a < b < self.games@.len() implies #[trigger] self.games@[a].id@
                    != #[trigger] self.games@[b].id@ by {
                    if b == old(self).games@.len() {
                        assert(self.games@[a] == old(self).games@[a]);
                    } else {
                        assert(old(self).games@[a].id@ != old(self).games@[b].id@);
                    }
                }
            }
        }
        game_id
    }

    /// An identifier that no game has: `id` itself when it is free, else `id`
    /// lengthened past every identifier in use.
    fn fresh_id(&self, id: String) -> (r: String)
        ensures
            game_id_free(self.games@, r@),
            game_id_free(self.games@, id@) ==> r@ == id@,
    {
        match self.find(id.as_str()) {
            None => {
                proof {
                    lemma_find_game_none(self.games@, id@, 0);
                }
                return id;
            },
            Some(k) => {
                proof {
                    lemma_find_game_found(self.games@, id@, 0);
                }
            },
        }
        let mut m: usize = 0;
        let mut i: usize = 0;
        while i < self.games.len()
            invariant
                i <= self.games@.len(),
                forall|j: int| 0 <= j < i ==> (#[trigger] self.games@[j]).id@.len() <= m,
            decreases self.games@.len() - i,
        {
            let n = self.games[i].id.as_str().unicode_len();
            if n > m {
                m = n;
            }
            i = i + 1;
        }
        let r = extend_past(id, m);
        assert forall|j: int| 0 <= j < self.games@.len() implies (#[trigger] self.games@[j]).id@ != r@ by {
            assert(self.games@[j].id@.len() <= m);
        }
        r
    }

    /// Seats a player in a game and records the game under the player.
    pub fn join_game(&mut self, game_id: &str, player_id: String, color: Option<Color>) -> (r:
        Result<Color, String>)
        ensures
            match old(self).index_of(game_id@) {
                None => r is Err && final(self).games@ == old(self).games@,
                Some(i) => match seat_for(old(self).games@[i], color) {
                    None => r is Err && final(self).games@ == old(self).games@,
                    Some(c) => {
                        &&& r == Ok::<Color, String>(c)
                        &&& final(self).games@.len() == old(self).games@.len()
                        &&& forall|j: int|
                            0 <= j < old(self).games@.len() && j != i ==> final(self).games@[j]
                                == old(self).games@[j]
                        &&& final(self).games@[i].color_of(player_id@) == Some(c) || old(
                            self,
                        ).games@[i].color_of(player_id@) is Some
                        &&& final(self).games@[i].board == old(self).games@[i].board
                        &&& final(self).games@[i].id == old(self).games@[i].id
                        &&& recorded(
                            old(self).player_games@,
                            final(self).player_games@,
                            player_id@,
                            game_id@,
                        )
                    },
                },
            },
            r is Err ==> final(self).games@ == old(self).games@ && final(self).player_games@ == old(
                self,
            ).player_games@,
            game_ids_unique(old(self).games@) ==> game_ids_unique(final(self).games@),
    {
        let i = match self.find(game_id) {
            Some(i) => i,
            None => {
                return Err("Game not found".to_string());
            },
        };
        let mut game = self.games.remove(i);
        assert(game == old(self).games@[i as int]);
        assert(old(self).index_of(game_id@) == Some(i as int));
        let added = game.add_player(player_id.clone(), color);
        assert(added is Ok <==> seat_for(old(self).games@[i as int], color) is Some);
        self.games.insert(i, game);
        assert(self.games@ =~= old(self).games@.update(i as int, game));
        let assigned = match added {
            Ok(c) => c,
            Err(e) => {
                assert(self.games@ =~= old(self).games@);
                return Err(e);
            },
        };
        let ghost games_now = self.games@;
        let ghost pg = self.player_games@;
        match self.find_player_entry(pid_str(&player_id)) {
            Some(k) => {
                let (name, mut ids) = self.player_games.remove(k);
                let ghost before = ids@;
                ids.push(game_id.to_owned());
                assert(texts(ids@) =~= texts(before).push(game_id@));
                self.player_games.insert(k, (name, ids));
                assert(self.player_games@ =~= pg.update(k as int, (name, ids)));
            },
            None => {
                let mut ids: Vec<String> = Vec::new();
                ids.push(game_id.to_owned());
                assert(texts(ids@) =~= seq![game_id@]);
                self.player_games.push((player_id, ids));
                assert(self.player_games@.drop_last() =~= pg);
            },
        }
        assert(self.games@ == games_now);
        proof {
            if game_ids_unique(old(self).games@) {
                assert forall|a: int, b: int|
                    0 <= a < b < self.games@.len() implies #[trigger] self.games@[a].id@
                    != #[trigger] self.games@[b].id@ by {
                    assert(old(self).games@[a].id@ != old(self).games@[b].id@);
                }
            }
        }
        Ok(assigned)
    }

    /// Frees the player's seats in a game and drops the game from the
    /// player's list.
    pub fn leave_game(&mut self, game_id: &str, player_id: &str) -> (r: Result<(), String>)
        ensures
            match old(self).index_of(game_id@) {
                None => r is Err && final(self).games@ == old(self).games@,
                Some(i) => {
                    &&& r is Ok
                    &&& final(self).games@.len() == old(self).games@.len()
                    &&& forall|j: int|
                        0 <= j < old(self).games@.len() && j != i ==> final(self).games@[j]
                            == old(self).games@[j]
                    &&& final(self).games@[i].color_of(player_id@) is None
                    &&& final(self).games@[i].board == old(self).games@[i].board
                    &&& final(self).games@[i].id == old(self).games@[i].id
                },
            },
            game_ids_unique(old(self).games@) ==> game_ids_unique(final(self).games@),
    {
        let i = match self.find(game_id) {
            Some(i) => i,
            None => {
                return Err("Game not found".to_string());
            },
        };
        let mut game = self.games.remove(i);
        assert(game == old(self).games@[i as int]);
        game.remove_player(player_id);
        self.games.insert(i, game);
        assert(self.games@ =~= old(self).games@.update(i as int, game));
        let ghost games_now = self.games@;
        match self.find_player_entry(player_id) {
            Some(k) => {
                let (pid, ids) = self.player_games.remove(k);
                let mut kept: Vec<String> = Vec::new();
                let mut j: usize = 0;
                while j < ids.len()
                    invariant
                        j <= ids@.len(),
                        forall|t: int| 0 <= t < kept@.len() ==> #[trigger] kept@[t]@ != game_id@,
                    decreases ids@.len() - j,
                {
                    if !same_text(ids[j].as_str(), game_id) {
                        kept.push(ids[j].clone());
                    }
                    j = j + 1;
                }
                self.player_games.insert(k, (pid, kept));
            },
            None => {},
        }
        assert(self.games@ == games_now);
        Ok(())
    }

    /// Plays a move in a game; see `GameState::make_move`.
    pub fn make_move(&mut self, game_id: &str, player_id: &str, chess_move: Move) -> (r: Result<
        (),
        String,
    >)
        ensures
            final(self).games@.len() == old(self).games@.len(),
            final(self).player_games@ == old(self).player_games@,
            match old(self).index_of(game_id@) {
                None => r is Err && final(self).games@ == old(self).games@,
                Some(i) => {
                    &&& r is Ok <==> move_accepted(old(self).games@[i], player_id@, chess_move)
                    &&& forall|j: int|
                        0 <= j < old(self).games@.len() && j != i ==> final(self).games@[j]
                            == old(self).games@[j]
                    &&& r is Ok ==> is_after(
                        final(self).games@[i].board,
                        old(self).games@[i].board,
                        chess_move,
                    )
                    &&& r is Ok ==> final(self).games@[i].move_history@ == old(
                        self,
                    ).games@[i].move_history@.push(chess_move)
                    &&& r is Err ==> final(self).games@[i].board == old(self).games@[i].board
                    &&& final(self).games@[i].id == old(self).games@[i].id
                },
            },
            game_ids_unique(old(self).games@) ==> game_ids_unique(final(self).games@),
    {
        let i = match self.find(game_id) {
            Some(i) => i,
            None => {
                return Err("Game not found".to_string());
            },
        };
        let mut game = self.games.remove(i);
        assert(game == old(self).games@[i as int]);
        assert(old(self).index_of(game_id@) == Some(i as int));
        let r = game.make_move(player_id, chess_move);
        self.games.insert(i, game);
        assert(self.games@ =~= old(self).games@.update(i as int, game));
        r
    }

    pub fn get_game(&self, game_id: &str) -> (r: Option<&GameState>)
        ensures
            deref_opt(r) == (match self.index_of(game_id@) {
                Some(i) => Some(self.games@[i]),
                None => None,
            }),
    {
        match self.find(game_id) {
            Some(i) => {
                assert(self.index_of(game_id@) == Some(i as int));
                Some(&self.games[i])
            },
            None => None,
        }
    }

    pub fn get_game_mut(&mut self, game_id: &str) -> (r: Option<&mut GameState>)
        ensures
            match old(self).index_of(game_id@) {
                Some(i) => r is Some && *r->0 == old(self).games@[i] && final(self).games@ == old(
                    self,
                ).games@.update(i, *final(r->0)) && final(self).player_games == old(
                    self,
                ).player_games,
                None => r is None && *final(self) == *old(self),
            },
    {
        match self.find(game_id) {
            Some(i) => Some(&mut self.games[i]),
            None => None,
        }
    }

    /// The games the player has joined and not left, in the order joined.
    pub fn get_player_games(&self, player_id: &str) -> (r: Vec<&GameState>)
        ensures
            r@.map_values(|g: &GameState| *g) == (match find_player(
                self.player_games@,
                player_id@,
                0,
            ) {
                Some(k) => games_named(
                    self.games@,
                    self.player_games@[k].1@,
                    self.player_games@[k].1@.len() as int,
                ),
                None => Seq::empty(),
            }),
    {
        let mut found: Vec<&GameState> = Vec::new();
        match self.find_player_entry(player_id) {
            Some(k) => {
                let ids = &self.player_games[k].1;
                assert(ids@ == self.player_games@[k as int].1@);
                assert(found@.map_values(|g: &GameState| *g) =~= games_named(self.games@, ids@, 0));
                let mut j: usize = 0;
                while j < ids.len()
                    invariant
                        j <= ids@.len(),
                        found@.map_values(|g: &GameState| *g) == games_named(
                            self.games@,
                            ids@,
                            j as int,
                        ),
                    decreases ids@.len() - j,
                {
                    let ghost before = found@;
                    match self.find(ids[j].as_str()) {
                        Some(i) => {
                            assert(find_game(self.games@, ids@[j as int]@, 0) == Some(i as int));
                            found.push(&self.games[i]);
                            assert(found@ == before.push(&self.games@[i as int]));
                        },
                        None => {
                            assert(find_game(self.games@, ids@[j as int]@, 0) is None);
                        },
                    }
                    assert(found@.map_values(|g: &GameState| *g) =~= games_named(
                        self.games@,
                        ids@,
                        j + 1,
                    ));
                    j = j + 1;
                }
            },
            None => {
                assert(found@.map_values(|g: &GameState| *g) =~= Seq::<GameState>::empty());
            },
        }
        found
    }
}

fn pid_str(s: &String) -> (r: &str)
    ensures
        r@ == s@,
{
    s.as_str()
}

/// Where a game stands, for listings.
#[derive(Clone, Copy, Debug, PartialEq, Eq, Structural)]
pub enum GameStatus {
    Waiting,
    Active,
    Finished,
}

impl GameState {
    /// Finished once it has a result; active with both seats taken; else
    /// waiting for players.
    pub open spec fn status_spec(self) -> GameStatus {
        if self.result != GameResult::Ongoing {
            GameStatus::Finished
        } else if self.white_player is Some && self.black_player is Some {
            GameStatus::Active
        } else {
            GameStatus::Waiting
        }
    }

    pub fn status(&self) -> (r: GameStatus)
        ensures
            r == self.status_spec(),
    {
        if self.result != GameResult::Ongoing {
            GameStatus::Finished
        } else if self.is_ready_to_start() {
            GameStatus::Active
        } else {
            GameStatus::Waiting
        }
    }
}

/// What a game listing asks for; an absent field asks nothing. Rating and
/// time-control fields are carried for clients but games hold no such data,
/// so they select nothing.
#[derive(Debug)]
pub struct GameListFilter {
    pub status: Option<GameStatus>,
    pub player_name: Option<String>,
    pub time_control: Option<String>,
    pub min_rating: Option<u32>,
    pub max_rating: Option<u32>,
}

impl Default for GameListFilter {
    fn default() -> (r: GameListFilter)
        ensures
            r.status is None && r.player_name is None && r.time_control is None && r.min_rating is None
                && r.max_rating is None,
    {
        GameListFilter {
            status: None,
            player_name: None,
            time_control: None,
            min_rating: None,
            max_rating: None,
        }
    }
}

impl GameListFilter {
    /// The game has the asked status and seats the asked player.
    pub open spec fn admits(self, g: GameState) -> bool {
        &&& (self.status matches Some(st) ==> g.status_spec() == st)
        &&& (self.player_name matches Some(n) ==> seat_is(g.white_player, n@) || seat_is(
            g.black_player,
            n@,
        ))
    }

    pub fn matches(&self, game: &GameState) -> (r: bool)
        ensures
            r == self.admits(*game),
    {
        match self.status {
            Some(st) => {
                if game.status() != st {
                    return false;
                }
            },
            None => {},
        }
        match &self.player_name {
            Some(n) => game.is_player_in_game(n.as_str()),
            None => true,
        }
    }
}

/// The games of the first `n` that a filter admits, in order.
pub open spec fn listed(gs: Seq<GameState>, f: GameListFilter, n: int) -> Seq<GameState>
    decreases n,
{
    if n <= 0 {
        Seq::empty()
    } else {
        listed(gs, f, n - 1) + if f.admits(gs[n - 1]) {
            seq![gs[n - 1]]
        } else {
            Seq::empty()
        }
    }
}

impl GameManager {
    /// The games a filter admits, in creation order.
    pub fn list_games(&self, filter: &GameListFilter) -> (r: Vec<&GameState>)
        ensures
            r@.map_values(|g: &GameState| *g) == listed(self.games@, *filter, self.games@.len() as int),
    {
        let mut found: Vec<&GameState> = Vec::new();
        let mut i: usize = 0;
        while i < self.games.len()
            invariant
                i <= self.games@.len(),
                found@.map_values(|g: &GameState| *g) == listed(self.games@, *filter, i as int),
            decreases self.games@.len() - i,
        {
            let ghost before = found@;
            if filter.matches(&self.games[i]) {
                found.push(&self.games[i]);
            }
            assert(found@.map_values(|g: &GameState| *g) =~= listed(self.games@, *filter, i + 1));
            i = i + 1;
        }
        found
    }
}

} // verus!
