use vstd::prelude::*;
use vstd::string::*;

verus! {

#[derive(Debug, Clone, Copy, PartialEq, Eq, Structural, Hash, PartialOrd, Ord)]
pub enum Suit {
    Man,
    Pin,
    Sou,
    Honor,
}

#[derive(Debug, Clone, Copy, PartialEq, Eq, Structural, Hash)]
pub enum Honor {
    East,
    South,
    West,
    North,
    White,
    Green,
    Red,
}

/// A tile: a suited tile carries its rank in `num` (a red five is a 5 with
/// `red` set); an honor tile carries `num == 0` and its honor.
#[derive(Debug, Clone, Copy, PartialEq, Eq, Structural, Hash)]
pub struct Tile {
    pub suit: Suit,
    pub num: u8,
    pub honor: Option<Honor>,
    pub red: bool,
}

/// The identity of a tile with the red flag erased: what grouping and
/// matching compare.
#[derive(Debug, Clone, Copy, PartialEq, Eq, Structural, Hash)]
pub struct TileKey {
    pub suit: Suit,
    pub num: u8,
    pub honor: Option<Honor>,
}

/// Number of distinct tile identities.
pub const NUM_KEYS: usize = 34;

pub open spec fn honor_index(h: Honor) -> int {
    match h {
        Honor::East => 0,
        Honor::South => 1,
        Honor::West => 2,
        Honor::North => 3,
        Honor::White => 4,
        Honor::Green => 5,
        Honor::Red => 6,
    }
}

pub open spec fn suit_index(s: Suit) -> int {
    match s {
        Suit::Man => 0,
        Suit::Pin => 1,
        Suit::Sou => 2,
        Suit::Honor => 3,
    }
}

pub open spec fn is_dragon(h: Honor) -> bool {
    h == Honor::White || h == Honor::Green || h == Honor::Red
}

impl Tile {
    /// A tile that the code grammar can produce.
    pub open spec fn wf(self) -> bool {
        if self.suit == Suit::Honor {
            self.num == 0 && self.honor is Some && !self.red
        } else {
            1 <= self.num <= 9 && self.honor is None && (self.red ==> self.num == 5)
        }
    }

    pub open spec fn key(self) -> TileKey {
        TileKey { suit: self.suit, num: self.num, honor: self.honor }
    }

    /// Decodes a tile text code: `E S W N` for the winds, `P F C` for the
    /// white, green and red dragons, `<digit><m|p|s>` for suited tiles with
    /// `0` standing for a red five.
    pub fn from_code(code: &str) -> (r: Result<Tile, InvalidTileCode>)
        ensures
            match r {
                Ok(t) => tile_of_code(code@) == Some(t),
                Err(_) => tile_of_code(code@) is None,
            },
    {
        let len = code.unicode_len();
        if len == 1 {
            let c = code.get_char(0);
            match honor_of_letter(c) {
                Some(h) => Ok(Tile::honor(h)),
                None => Err(InvalidTileCode),
            }
        } else if len == 2 {
            let d = code.get_char(0);
            let s = code.get_char(1);
            let n = match digit_value(d) {
                Some(n) => n,
                None => return Err(InvalidTileCode),
            };
            let suit = match suit_of_letter(s) {
                Some(suit) => suit,
                None => return Err(InvalidTileCode),
            };
            if n == 0 {
                Ok(Tile { suit, num: 5, honor: None, red: true })
            } else {
                Ok(Tile { suit, num: n, honor: None, red: false })
            }
        } else {
            Err(InvalidTileCode)
        }
    }

    /// Encodes a tile back to its text code; a red five encodes as `0<suit>`.
    pub fn to_code(&self) -> (r: String)
        requires
            self.wf(),
        ensures
            r@ == code_of(*self),
    {
        if self.suit == Suit::Honor {
            let h = self.honor.unwrap();
            String::from_str(honor_letter_str(h))
        } else {
            let d: u8 = if self.red { 0 } else { self.num };
            let mut s = String::from_str(digit_str(d));
            s.append(suit_letter_str(self.suit));
            s
        }
    }

    pub fn honor(h: Honor) -> (r: Tile)
        ensures
            r == (Tile { suit: Suit::Honor, num: 0, honor: Some(h), red: false }),
            r.wf(),
    {
        Tile { suit: Suit::Honor, num: 0, honor: Some(h), red: false }
    }

    pub fn is_honor(&self) -> (r: bool)
        ensures
            r == (self.suit == Suit::Honor),
    {
        self.suit == Suit::Honor
    }

    /// The identity of the tile with the red flag ignored (dora matching).
    pub fn base_id(&self) -> (r: (Suit, u8, Option<Honor>))
        ensures
            r == (self.suit, self.num, self.honor),
    {
        (self.suit, self.num, self.honor)
    }
}

impl TileKey {
    pub open spec fn wf(self) -> bool {
        if self.suit == Suit::Honor {
            self.num == 0 && self.honor is Some
        } else {
            1 <= self.num <= 9 && self.honor is None
        }
    }

    /// Position of the key in the canonical order: suit, then honor, then rank.
    pub open spec fn index(self) -> int {
        if self.suit == Suit::Honor {
            27 + honor_index(self.honor->0)
        } else {
            9 * suit_index(self.suit) + self.num - 1
        }
    }

    pub open spec fn is_terminal_or_honor(self) -> bool {
        self.suit == Suit::Honor || self.num == 1 || self.num == 9
    }

    pub fn from_tile(t: &Tile) -> (r: TileKey)
        ensures
            r == t.key(),
    {
        TileKey { suit: t.suit, num: t.num, honor: t.honor }
    }

    pub fn to_tile(&self) -> (r: Tile)
        ensures
            r == (Tile { suit: self.suit, num: self.num, honor: self.honor, red: false }),
            r.key() == *self,
    {
        Tile { suit: self.suit, num: self.num, honor: self.honor, red: false }
    }

    /// The next rank in the same suit, if any.
    pub fn next(&self) -> (r: Option<TileKey>)
        ensures
            r == (if self.suit == Suit::Honor || self.num >= 9 {
                None
            } else {
                Some(TileKey { suit: self.suit, num: (self.num + 1) as u8, honor: None })
            }),
    {
        if self.suit == Suit::Honor || self.num >= 9 {
            None
        } else {
            Some(TileKey { suit: self.suit, num: self.num + 1, honor: None })
        }
    }

    /// The rank two above in the same suit, if any.
    pub fn next2(&self) -> (r: Option<TileKey>)
        ensures
            r == (if self.suit == Suit::Honor || self.num >= 8 {
                None
            } else {
                Some(TileKey { suit: self.suit, num: (self.num + 2) as u8, honor: None })
            }),
    {
        if self.suit == Suit::Honor || self.num >= 8 {
            None
        } else {
            Some(TileKey { suit: self.suit, num: self.num + 2, honor: None })
        }
    }

    pub fn index_of(&self) -> (r: usize)
        requires
            self.wf(),
        ensures
            r == self.index(),
            r < NUM_KEYS,
    {
        match self.suit {
            Suit::Man => (self.num - 1) as usize,
            Suit::Pin => (self.num + 8) as usize,
            Suit::Sou => (self.num + 17) as usize,
            Suit::Honor => match self.honor.unwrap() {
                Honor::East => 27,
                Honor::South => 28,
                Honor::West => 29,
                Honor::North => 30,
                Honor::White => 31,
                Honor::Green => 32,
                Honor::Red => 33,
            },
        }
    }

    pub fn is_terminal_or_honor_key(&self) -> (r: bool)
        ensures
            r == self.is_terminal_or_honor(),
    {
        self.suit == Suit::Honor || self.num == 1 || self.num == 9
    }
}

pub open spec fn key_at(i: int) -> TileKey {
    if i < 9 {
        TileKey { suit: Suit::Man, num: (i + 1) as u8, honor: None }
    } else if i < 18 {
        TileKey { suit: Suit::Pin, num: (i - 8) as u8, honor: None }
    } else if i < 27 {
        TileKey { suit: Suit::Sou, num: (i - 17) as u8, honor: None }
    } else {
        let h = if i == 27 {
            Honor::East
        } else if i == 28 {
            Honor::South
        } else if i == 29 {
            Honor::West
        } else if i == 30 {
            Honor::North
        } else if i == 31 {
            Honor::White
        } else if i == 32 {
            Honor::Green
        } else {
            Honor::Red
        };
        TileKey { suit: Suit::Honor, num: 0, honor: Some(h) }
    }
}

/// The key at a position of the canonical order.
pub fn key_at_index(i: usize) -> (r: TileKey)
    requires
        i < NUM_KEYS,
    ensures
        r == key_at(i as int),
        r.wf(),
        r.index() == i,
{
    if i < 9 {
        TileKey { suit: Suit::Man, num: (i + 1) as u8, honor: None }
    } else if i < 18 {
        TileKey { suit: Suit::Pin, num: (i - 8) as u8, honor: None }
    } else if i < 27 {
        TileKey { suit: Suit::Sou, num: (i - 17) as u8, honor: None }
    } else {
        let h = if i == 27 {
            Honor::East
        } else if i == 28 {
            Honor::South
        } else if i == 29 {
            Honor::West
        } else if i == 30 {
            Honor::North
        } else if i == 31 {
            Honor::White
        } else if i == 32 {
            Honor::Green
        } else {
            Honor::Red
        };
        TileKey { suit: Suit::Honor, num: 0, honor: Some(h) }
    }
}

pub proof fn lemma_key_at_index(k: TileKey)
    requires
        k.wf(),
    ensures
        key_at(k.index()) == k,
        0 <= k.index() < 34,
{
}

/// The condition of a malformed tile text code.
#[derive(Debug, Clone, Copy, PartialEq, Eq, Structural)]
pub struct InvalidTileCode;

pub open spec fn honor_of_char(c: char) -> Option<Honor> {
    if c == 'E' {
        Some(Honor::East)
    } else if c == 'S' {
        Some(Honor::South)
    } else if c == 'W' {
        Some(Honor::West)
    } else if c == 'N' {
        Some(Honor::North)
    } else if c == 'P' {
        Some(Honor::White)
    } else if c == 'F' {
        Some(Honor::Green)
    } else if c == 'C' {
        Some(Honor::Red)
    } else {
        None
    }
}

pub open spec fn honor_char(h: Honor) -> char {
    match h {
        Honor::East => 'E',
        Honor::South => 'S',
        Honor::West => 'W',
        Honor::North => 'N',
        Honor::White => 'P',
        Honor::Green => 'F',
        Honor::Red => 'C',
    }
}

pub open spec fn suit_of_char(c: char) -> Option<Suit> {
    if c == 'm' {
        Some(Suit::Man)
    } else if c == 'p' {
        Some(Suit::Pin)
    } else if c == 's' {
        Some(Suit::Sou)
    } else {
        None
    }
}

pub open spec fn suit_char(s: Suit) -> char {
    match s {
        Suit::Man => 'm',
        Suit::Pin => 'p',
        _ => 's',
    }
}

pub open spec fn digit_of_char(c: char) -> Option<u8> {
    if c == '0' {
        Some(0u8)
    } else if c == '1' {
        Some(1u8)
    } else if c == '2' {
        Some(2u8)
    } else if c == '3' {
        Some(3u8)
    } else if c == '4' {
        Some(4u8)
    } else if c == '5' {
        Some(5u8)
    } else if c == '6' {
        Some(6u8)
    } else if c == '7' {
        Some(7u8)
    } else if c == '8' {
        Some(8u8)
    } else if c == '9' {
        Some(9u8)
    } else {
        None
    }
}

pub open spec fn digit_char(n: u8) -> char {
    if n == 0 {
        '0'
    } else if n == 1 {
        '1'
    } else if n == 2 {
        '2'
    } else if n == 3 {
        '3'
    } else if n == 4 {
        '4'
    } else if n == 5 {
        '5'
    } else if n == 6 {
        '6'
    } else if n == 7 {
        '7'
    } else if n == 8 {
        '8'
    } else {
        '9'
    }
}

/// The tile that a text code denotes, if the code is well formed.
pub open spec fn tile_of_code(s: Seq<char>) -> Option<Tile> {
    if s.len() == 1 {
        match honor_of_char(s[0]) {
            Some(h) => Some(Tile { suit: Suit::Honor, num: 0, honor: Some(h), red: false }),
            None => None,
        }
    } else if s.len() == 2 {
        match (digit_of_char(s[0]), suit_of_char(s[1])) {
            (Some(d), Some(suit)) => if d == 0 {
                Some(Tile { suit, num: 5, honor: None, red: true })
            } else {
                Some(Tile { suit, num: d, honor: None, red: false })
            },
            _ => None,
        }
    } else {
        None
    }
}

/// The canonical text code of a tile.
pub open spec fn code_of(t: Tile) -> Seq<char> {
    if t.suit == Suit::Honor {
        seq![honor_char(t.honor->0)]
    } else if t.red {
        seq!['0', suit_char(t.suit)]
    } else {
        seq![digit_char(t.num), suit_char(t.suit)]
    }
}

/// Decoding a valid code and encoding the tile again gives the code back
/// (a red five is written `0<suit>` both ways).
pub proof fn lemma_decode_encode(s: Seq<char>)
    requires
        tile_of_code(s) is Some,
    ensures
        tile_of_code(s)->0.wf(),
        code_of(tile_of_code(s)->0) =~= s,
{
}

/// Encoding a tile and decoding the code gives the same tile back.
pub proof fn lemma_encode_decode(t: Tile)
    requires
        t.wf(),
    ensures
        tile_of_code(code_of(t)) == Some(t),
{
    let c = code_of(t);
    if t.suit != Suit::Honor {
        assert(c[0] == (if t.red { '0' } else { digit_char(t.num) }));
        assert(c[1] == suit_char(t.suit));
    }
}

fn honor_of_letter(c: char) -> (r: Option<Honor>)
    ensures
        r == honor_of_char(c),
{
    if c == 'E' {
        Some(Honor::East)
    } else if c == 'S' {
        Some(Honor::South)
    } else if c == 'W' {
        Some(Honor::West)
    } else if c == 'N' {
        Some(Honor::North)
    } else if c == 'P' {
        Some(Honor::White)
    } else if c == 'F' {
        Some(Honor::Green)
    } else if c == 'C' {
        Some(Honor::Red)
    } else {
        None
    }
}

fn suit_of_letter(c: char) -> (r: Option<Suit>)
    ensures
        r == suit_of_char(c),
{
    if c == 'm' {
        Some(Suit::Man)
    } else if c == 'p' {
        Some(Suit::Pin)
    } else if c == 's' {
        Some(Suit::Sou)
    } else {
        None
    }
}

fn digit_value(c: char) -> (r: Option<u8>)
    ensures
        r == digit_of_char(c),
{
    if c == '0' {
        Some(0)
    } else if c == '1' {
        Some(1)
    } else if c == '2' {
        Some(2)
    } else if c == '3' {
        Some(3)
    } else if c == '4' {
        Some(4)
    } else if c == '5' {
        Some(5)
    } else if c == '6' {
        Some(6)
    } else if c == '7' {
        Some(7)
    } else if c == '8' {
        Some(8)
    } else if c == '9' {
        Some(9)
    } else {
        None
    }
}

fn honor_letter_str(h: Honor) -> (r: &'static str)
    ensures
        r@ == seq![honor_char(h)],
{
    match h {
        Honor::East => {
            proof {
                reveal_strlit("E");
            }
            "E"
        },
        Honor::South => {
            proof {
                reveal_strlit("S");
            }
            "S"
        },
        Honor::West => {
            proof {
                reveal_strlit("W");
            }
            "W"
        },
        Honor::North => {
            proof {
                reveal_strlit("N");
            }
            "N"
        },
        Honor::White => {
            proof {
                reveal_strlit("P");
            }
            "P"
        },
        Honor::Green => {
            proof {
                reveal_strlit("F");
            }
            "F"
        },
        Honor::Red => {
            proof {
                reveal_strlit("C");
            }
            "C"
        },
    }
}

fn suit_letter_str(s: Suit) -> (r: &'static str)
    ensures
        r@ == seq![suit_char(s)],
{
    match s {
        Suit::Man => {
            proof {
                reveal_strlit("m");
            }
            "m"
        },
        Suit::Pin => {
            proof {
                reveal_strlit("p");
            }
            "p"
        },
        _ => {
            proof {
                reveal_strlit("s");
            }
            "s"
        },
    }
}

fn digit_str(n: u8) -> (r: &'static str)
    requires
        n <= 9,
    ensures
        r@ == seq![digit_char(n)],
{
    if n == 0 {
        proof {
            reveal_strlit("0");
        }
        "0"
    } else if n == 1 {
        proof {
            reveal_strlit("1");
        }
        "1"
    } else if n == 2 {
        proof {
            reveal_strlit("2");
        }
        "2"
    } else if n == 3 {
        proof {
            reveal_strlit("3");
        }
        "3"
    } else if n == 4 {
        proof {
            reveal_strlit("4");
        }
        "4"
    } else if n == 5 {
        proof {
            reveal_strlit("5");
        }
        "5"
    } else if n == 6 {
        proof {
            reveal_strlit("6");
        }
        "6"
    } else if n == 7 {
        proof {
            reveal_strlit("7");
        }
        "7"
    } else if n == 8 {
        proof {
            reveal_strlit("8");
        }
        "8"
    } else {
        proof {
            reveal_strlit("9");
        }
        "9"
    }
}

} // verus!
