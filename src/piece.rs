use vstd::prelude::*;

verus! {

/// The two sides of a game.
#[derive(Clone, Copy, Debug, PartialEq, Eq, Structural)]
pub enum Color {
    White,
    Black,
}

impl Color {
    pub open spec fn other(self) -> Color {
        match self {
            Color::White => Color::Black,
            Color::Black => Color::White,
        }
    }

    /// Rank step of this side's pawns: +1 for White, -1 for Black.
    pub open spec fn forward(self) -> int {
        match self {
            Color::White => 1,
            Color::Black => -1,
        }
    }

    /// The rank on which this side's pieces start.
    pub open spec fn home_rank(self) -> int {
        match self {
            Color::White => 0,
            Color::Black => 7,
        }
    }

    /// The rank on which this side's pawns promote.
    pub open spec fn last_rank(self) -> int {
        match self {
            Color::White => 7,
            Color::Black => 0,
        }
    }

    pub fn opposite(self) -> (r: Color)
        ensures
            r == self.other(),
    {
        match self {
            Color::White => Color::Black,
            Color::Black => Color::White,
        }
    }
}

#[derive(Clone, Copy, Debug, PartialEq, Eq, Structural)]
pub enum PieceType {
    Pawn,
    Rook,
    Knight,
    Bishop,
    Queen,
    King,
}

impl PieceType {
    /// The kinds a pawn may become on the last rank.
    pub open spec fn is_promotion_kind(self) -> bool {
        self == PieceType::Queen || self == PieceType::Rook || self == PieceType::Bishop
            || self == PieceType::Knight
    }

    /// The lower-case letter of this kind, as FEN and move notation write it.
    pub open spec fn letter(self) -> char {
        match self {
            PieceType::Pawn => 'p',
            PieceType::Rook => 'r',
            PieceType::Knight => 'n',
            PieceType::Bishop => 'b',
            PieceType::Queen => 'q',
            PieceType::King => 'k',
        }
    }
}

#[derive(Clone, Copy, Debug, PartialEq, Eq, Structural)]
pub struct Piece {
    pub piece_type: PieceType,
    pub color: Color,
    pub has_moved: bool,
}

/// The ASCII upper-case form of a lower-case ASCII letter.
pub open spec fn upper(c: char) -> char {
    ((c as u32) - 32) as char
}

/// The kind that a lower-case FEN letter names.
pub open spec fn kind_of_letter(c: char) -> Option<PieceType> {
    if c == 'p' {
        Some(PieceType::Pawn)
    } else if c == 'r' {
        Some(PieceType::Rook)
    } else if c == 'n' {
        Some(PieceType::Knight)
    } else if c == 'b' {
        Some(PieceType::Bishop)
    } else if c == 'q' {
        Some(PieceType::Queen)
    } else if c == 'k' {
        Some(PieceType::King)
    } else {
        None
    }
}

impl Piece {
    /// FEN letter of a piece: upper case for White, lower case for Black.
    pub open spec fn fen_letter(self) -> char {
        match self.color {
            Color::White => upper(self.piece_type.letter()),
            Color::Black => self.piece_type.letter(),
        }
    }

    /// The piece, unmoved, that a FEN letter stands for.
    pub open spec fn of_fen_letter(c: char) -> Option<Piece> {
        if kind_of_letter(c) is Some {
            Some(Piece { piece_type: kind_of_letter(c)->0, color: Color::Black, has_moved: false })
        } else if 65 <= (c as u32) <= 90 && kind_of_letter(((c as u32) + 32) as char) is Some {
            Some(
                Piece {
                    piece_type: kind_of_letter(((c as u32) + 32) as char)->0,
                    color: Color::White,
                    has_moved: false,
                },
            )
        } else {
            None
        }
    }

    pub open spec fn value(self) -> u32 {
        match self.piece_type {
            PieceType::Pawn => 1,
            PieceType::Rook => 5,
            PieceType::Knight => 3,
            PieceType::Bishop => 3,
            PieceType::Queen => 9,
            PieceType::King => 0,
        }
    }

    pub fn new(piece_type: PieceType, color: Color) -> (r: Piece)
        ensures
            r == (Piece { piece_type, color, has_moved: false }),
    {
        Piece { piece_type, color, has_moved: false }
    }

    pub fn mark_moved(&mut self)
        ensures
            *final(self) == (Piece { has_moved: true, ..*old(self) }),
    {
        self.has_moved = true;
    }

    pub fn get_value(&self) -> (r: u32)
        ensures
            r == self.value(),
    {
        match self.piece_type {
            PieceType::Pawn => 1,
            PieceType::Rook => 5,
            PieceType::Knight => 3,
            PieceType::Bishop => 3,
            PieceType::Queen => 9,
            PieceType::King => 0,
        }
    }

    pub fn to_fen_char(&self) -> (r: char)
        ensures
            r == self.fen_letter(),
    {
        match (self.piece_type, self.color) {
            (PieceType::Pawn, Color::White) => 'P',
            (PieceType::Rook, Color::White) => 'R',
            (PieceType::Knight, Color::White) => 'N',
            (PieceType::Bishop, Color::White) => 'B',
            (PieceType::Queen, Color::White) => 'Q',
            (PieceType::King, Color::White) => 'K',
            (PieceType::Pawn, Color::Black) => 'p',
            (PieceType::Rook, Color::Black) => 'r',
            (PieceType::Knight, Color::Black) => 'n',
            (PieceType::Bishop, Color::Black) => 'b',
            (PieceType::Queen, Color::Black) => 'q',
            (PieceType::King, Color::Black) => 'k',
        }
    }

    pub fn from_fen_char(c: char) -> (r: Option<Piece>)
        ensures
            r == Piece::of_fen_letter(c),
    {
        let (kind, color) = match c {
            'P' => (PieceType::Pawn, Color::White),
            'R' => (PieceType::Rook, Color::White),
            'N' => (PieceType::Knight, Color::White),
            'B' => (PieceType::Bishop, Color::White),
            'Q' => (PieceType::Queen, Color::White),
            'K' => (PieceType::King, Color::White),
            'p' => (PieceType::Pawn, Color::Black),
            'r' => (PieceType::Rook, Color::Black),
            'n' => (PieceType::Knight, Color::Black),
            'b' => (PieceType::Bishop, Color::Black),
            'q' => (PieceType::Queen, Color::Black),
            'k' => (PieceType::King, Color::Black),
            _ => {
                return None;
            },
        };
        Some(Piece::new(kind, color))
    }
}

/// A square: file 0..=7 is a..h, rank 0..=7 is 1..8.
#[derive(Clone, Copy, Debug, PartialEq, Eq, Structural)]
pub struct Position {
    pub file: u8,
    pub rank: u8,
}

/// The file that a letter `a`..`h` names.
pub open spec fn file_of_char(c: char) -> Option<u8> {
    if 97 <= (c as u32) <= 104 {
        Some(((c as u32) - 97) as u8)
    } else {
        None
    }
}

/// The rank that a digit `1`..`8` names.
pub open spec fn rank_of_char(c: char) -> Option<u8> {
    if 49 <= (c as u32) <= 56 {
        Some(((c as u32) - 49) as u8)
    } else {
        None
    }
}

/// The square that two characters such as `e4` name.
pub open spec fn square_of(a: char, b: char) -> Option<Position> {
    if file_of_char(a) is Some && rank_of_char(b) is Some {
        Some(Position { file: file_of_char(a)->0, rank: rank_of_char(b)->0 })
    } else {
        None
    }
}

/// The kind that a promotion letter `q`, `r`, `b` or `n` names.
pub open spec fn promotion_of_char(c: char) -> Option<PieceType> {
    if c == 'q' {
        Some(PieceType::Queen)
    } else if c == 'r' {
        Some(PieceType::Rook)
    } else if c == 'b' {
        Some(PieceType::Bishop)
    } else if c == 'n' {
        Some(PieceType::Knight)
    } else {
        None
    }
}

impl Position {
    pub open spec fn valid(self) -> bool {
        self.file < 8 && self.rank < 8
    }

    /// Index of the square in a rank-major list of the 64 squares.
    pub open spec fn index(self) -> int {
        self.rank as int * 8 + self.file as int
    }

    /// Algebraic name of a valid square, such as `e4`.
    pub open spec fn name(self) -> Seq<char> {
        seq![((97 + self.file) as u8) as char, ((49 + self.rank) as u8) as char]
    }

    pub fn new(file: u8, rank: u8) -> (r: Option<Position>)
        ensures
            r == (if file < 8 && rank < 8 {
                Some(Position { file, rank })
            } else {
                None
            }),
    {
        if file < 8 && rank < 8 {
            Some(Position { file, rank })
        } else {
            None
        }
    }

    pub fn from_algebraic(notation: &str) -> (r: Option<Position>)
        ensures
            r == (if notation@.len() == 2 {
                square_of(notation@[0], notation@[1])
            } else {
                None
            }),
    {
        if notation.unicode_len() != 2 {
            return None;
        }
        let a = notation.get_char(0);
        let b = notation.get_char(1);
        square_from_chars(a, b)
    }

    pub fn to_algebraic(&self) -> (r: String)
        requires
            self.valid(),
        ensures
            r@ == self.name(),
    {
        let mut s = String::new();
        crate::text::push_char(&mut s, (97u8 + self.file) as char);
        crate::text::push_char(&mut s, (49u8 + self.rank) as char);
        assert(s@ =~= self.name());
        s
    }

    pub fn is_valid(&self) -> (r: bool)
        ensures
            r == self.valid(),
    {
        self.file < 8 && self.rank < 8
    }
}

fn square_from_chars(a: char, b: char) -> (r: Option<Position>)
    ensures
        r == square_of(a, b),
{
    let file: u8 = if 'a' <= a && a <= 'h' {
        (a as u32 - 97) as u8
    } else {
        return None;
    };
    let rank: u8 = if '1' <= b && b <= '8' {
        (b as u32 - 49) as u8
    } else {
        return None;
    };
    Some(Position { file, rank })
}

fn promotion_from_char(c: char) -> (r: Option<PieceType>)
    ensures
        r == promotion_of_char(c),
{
    match c {
        'q' => Some(PieceType::Queen),
        'r' => Some(PieceType::Rook),
        'b' => Some(PieceType::Bishop),
        'n' => Some(PieceType::Knight),
        _ => None,
    }
}

#[derive(Clone, Copy, Debug, PartialEq, Eq, Structural)]
pub struct Move {
    pub from: Position,
    pub to: Position,
    pub promotion: Option<PieceType>,
    pub is_castle: bool,
    pub is_en_passant: bool,
}

/// The move that a notation such as `e7e8q` names.
pub open spec fn move_of(s: Seq<char>) -> Option<Move> {
    if s.len() >= 4 && square_of(s[0], s[1]) is Some && square_of(s[2], s[3]) is Some {
        Some(
            Move {
                from: square_of(s[0], s[1])->0,
                to: square_of(s[2], s[3])->0,
                promotion: if s.len() == 5 {
                    promotion_of_char(s[4])
                } else {
                    None
                },
                is_castle: false,
                is_en_passant: false,
            },
        )
    } else {
        None
    }
}

impl Move {
    /// Notation of a move between valid squares: both squares, then the
    /// promotion letter if there is one.
    pub open spec fn notation(self) -> Seq<char> {
        match self.promotion {
            Some(k) => self.from.name() + self.to.name() + seq![
                if k.is_promotion_kind() {
                    k.letter()
                } else {
                    'q'
                },
            ],
            None => self.from.name() + self.to.name(),
        }
    }

    pub fn new(from: Position, to: Position) -> (r: Move)
        ensures
            r == (Move { from, to, promotion: None, is_castle: false, is_en_passant: false }),
    {
        Move { from, to, promotion: None, is_castle: false, is_en_passant: false }
    }

    pub fn with_promotion(from: Position, to: Position, promotion: PieceType) -> (r: Move)
        ensures
            r == (Move {
                from,
                to,
                promotion: Some(promotion),
                is_castle: false,
                is_en_passant: false,
            }),
    {
        Move { from, to, promotion: Some(promotion), is_castle: false, is_en_passant: false }
    }

    pub fn castle(from: Position, to: Position) -> (r: Move)
        ensures
            r == (Move { from, to, promotion: None, is_castle: true, is_en_passant: false }),
    {
        Move { from, to, promotion: None, is_castle: true, is_en_passant: false }
    }

    pub fn en_passant(from: Position, to: Position) -> (r: Move)
        ensures
            r == (Move { from, to, promotion: None, is_castle: false, is_en_passant: true }),
    {
        Move { from, to, promotion: None, is_castle: false, is_en_passant: true }
    }

    pub fn to_algebraic(&self) -> (r: String)
        requires
            self.from.valid(),
            self.to.valid(),
        ensures
            r@ == self.notation(),
    {
        let mut s = self.from.to_algebraic();
        let t = self.to.to_algebraic();
        s.append(t.as_str());
        match self.promotion {
            Some(k) => {
                let c = match k {
                    PieceType::Queen => 'q',
                    PieceType::Rook => 'r',
                    PieceType::Bishop => 'b',
                    PieceType::Knight => 'n',
                    _ => 'q',
                };
                crate::text::push_char(&mut s, c);
            },
            None => {},
        }
        s
    }

    pub fn from_algebraic(notation: &str) -> (r: Option<Move>)
        ensures
            r == move_of(notation@),
    {
        let n = notation.unicode_len();
        if n < 4 {
            return None;
        }
        let from = match square_from_chars(notation.get_char(0), notation.get_char(1)) {
            Some(p) => p,
            None => {
                return None;
            },
        };
        let to = match square_from_chars(notation.get_char(2), notation.get_char(3)) {
            Some(p) => p,
            None => {
                return None;
            },
        };
        let mut m = Move::new(from, to);
        if n == 5 {
            m.promotion = promotion_from_char(notation.get_char(4));
        }
        Some(m)
    }
}

} // verus!
