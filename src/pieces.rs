//! Pieces: their identity, their generated names, and the classic set.
use vstd::prelude::*;

use crate::common::{LegalMoves, Pos};
use crate::friends::{friend_ok, friendships_valid, generate_relationships, same_identity};
use crate::random::draw_between;
use crate::text::push_char;

verus! {

/// Number of pieces in the classic set.
pub const CLASSIC_PIECES_N: usize = 32;

#[derive(Clone, Copy, Debug, PartialEq, Eq, Structural)]
pub enum Sex {
    Male,
    Female,
}

#[derive(Clone, Copy, Debug, PartialEq, Eq, Structural)]
pub enum Side {
    Black,
    White,
}

#[derive(Clone, Copy, Debug, PartialEq, Eq, Structural)]
pub enum Class {
    Pawn,
    Knight,
    Rook,
    Bishop,
    Queen,
    King,
}

pub open spec fn side_word(s: Side) -> Seq<char> {
    match s {
        Side::Black => seq!['b', 'l', 'a', 'c', 'k'],
        Side::White => seq!['w', 'h', 'i', 't', 'e'],
    }
}

pub open spec fn class_word(c: Class) -> Seq<char> {
    match c {
        Class::Pawn => seq!['p', 'a', 'w', 'n'],
        Class::Knight => seq!['k', 'n', 'i', 'g', 'h', 't'],
        Class::Rook => seq!['r', 'o', 'o', 'k'],
        Class::Bishop => seq!['b', 'i', 's', 'h', 'o', 'p'],
        Class::Queen => seq!['Q', 'u', 'e', 'e', 'n'],
        Class::King => seq!['K', 'i', 'n', 'g'],
    }
}

impl Side {
    /// The side's name as it reads in text.
    pub fn as_str(&self) -> (r: &'static str)
        ensures
            r@ == side_word(*self),
    {
        match self {
            Side::Black => {
                proof {
                    reveal_strlit("black");
                }
                "black"
            },
            Side::White => {
                proof {
                    reveal_strlit("white");
                }
                "white"
            },
        }
    }
}

impl Class {
    /// The class's name as it reads in text; royalty is capitalised.
    pub fn as_str(&self) -> (r: &'static str)
        ensures
            r@ == class_word(*self),
    {
        match self {
            Class::Pawn => {
                proof {
                    reveal_strlit("pawn");
                }
                "pawn"
            },
            Class::Knight => {
                proof {
                    reveal_strlit("knight");
                }
                "knight"
            },
            Class::Rook => {
                proof {
                    reveal_strlit("rook");
                }
                "rook"
            },
            Class::Bishop => {
                proof {
                    reveal_strlit("bishop");
                }
                "bishop"
            },
            Class::Queen => {
                proof {
                    reveal_strlit("Queen");
                }
                "Queen"
            },
            Class::King => {
                proof {
                    reveal_strlit("King");
                }
                "King"
            },
        }
    }
}

/// The King and the Queen: they never take a friend.
pub open spec fn is_royal(c: Class) -> bool {
    c == Class::King || c == Class::Queen
}

/// Will switch sides the moment the other side wins by a high margin.
/// Incompatible with the King.
pub const NAT_TRAITOR: u32 = 0b1;

/// Naturally fearful: fear is doubled. Incompatible with `NAT_WARRIOR`.
pub const NAT_COWARD: u32 = 0b10;

/// Naturally brave: fear is halved. Incompatible with `NAT_COWARD`.
pub const NAT_WARRIOR: u32 = 0b100;

/// One occupant of the board. Friend and enemy are indices into the
/// collection that owns the piece, never references to other pieces.
pub struct Piece {
    pub class: Class,
    pub side: Side,
    pub sex: Sex,
    /// Where the piece stands; a negative `x` means it was taken.
    pub pos: Pos,
    /// A bitmask of constant mindsets, see the `NAT_` constants.
    pub nature: u32,
    pub name: String,
    /// Index of this piece's friend in the collection that owns both.
    pub friend: Option<usize>,
    /// Index of the piece this one most wants to capture.
    pub enemy: Option<usize>,
}

// ---------------------------------------------------------------------------
// Names

pub open spec fn vowels() -> Seq<Seq<char>> {
    seq![
        seq!['a'], seq!['a', 'a'], seq!['a', 'e'], seq!['o', 'e'], seq!['e'], seq!['e', 'a'],
        seq!['i'], seq!['i', 'e'], seq!['o'], seq!['o', 'i'], seq!['o', 'u'], seq!['u'],
        seq!['u', 'i'],
    ]
}

pub open spec fn consonants() -> Seq<Seq<char>> {
    seq![
        seq!['b'], seq!['c'], seq!['d'], seq!['f'], seq!['f', 'f'], seq!['g'], seq!['c', 'g'],
        seq!['h'], seq!['j'], seq!['k'], seq!['l'], seq!['l', 'l'], seq!['m'], seq!['n'],
        seq!['n', 'n'], seq!['p'], seq!['p', 'p'], seq!['q'], seq!['r'], seq!['s'],
        seq!['s', 's'], seq!['t'], seq!['v'], seq!['w'], seq!['x'], seq!['y'], seq!['v', 'y'],
        seq!['d', 'y'], seq!['b', 'y'], seq!['l', 'y'], seq!['z'],
    ]
}

pub open spec fn syllables(consonant: bool) -> Seq<Seq<char>> {
    if consonant {
        consonants()
    } else {
        vowels()
    }
}

/// Whether the syllable at position `k` of a name is a consonant one, the
/// kinds alternating from `consonant_first`.
pub open spec fn consonant_at(consonant_first: bool, k: int) -> bool {
    if k % 2 == 0 {
        consonant_first
    } else {
        !consonant_first
    }
}

/// Each pick indexes the syllable table of its position.
pub open spec fn picks_valid(consonant_first: bool, picks: Seq<usize>) -> bool {
    forall|k: int|
        0 <= k < picks.len() ==> (#[trigger] picks[k] as int) < syllables(
            consonant_at(consonant_first, k),
        ).len()
}

/// The syllables named by `picks`, joined, in lower case.
pub open spec fn spelling(consonant_first: bool, picks: Seq<usize>) -> Seq<char>
    decreases picks.len(),
{
    if picks.len() == 0 {
        seq![]
    } else {
        spelling(consonant_first, picks.drop_last()) + syllables(
            consonant_at(consonant_first, picks.len() - 1),
        )[picks.last() as int]
    }
}

pub open spec fn is_lower(c: char) -> bool {
    'a' <= c <= 'z'
}

pub open spec fn is_upper(c: char) -> bool {
    'A' <= c <= 'Z'
}

/// `u` is the capital form of the lower-case letter `c`.
pub open spec fn capital_of(u: char, c: char) -> bool {
    is_lower(c) && is_upper(u) && u as u32 + 32 == c as u32
}

/// `name` is `s` with its first letter capitalised.
pub open spec fn capitalized(name: Seq<char>, s: Seq<char>) -> bool {
    &&& name.len() == s.len()
    &&& s.len() > 0 ==> capital_of(name[0], s[0])
    &&& forall|k: int| 1 <= k < s.len() ==> name[k] == s[k]
}

/// The outward shape of every generated name: three to sixteen letters, a
/// capital followed by lower-case letters.
pub open spec fn name_shaped(name: Seq<char>) -> bool {
    &&& 3 <= name.len() <= 16
    &&& is_upper(name[0])
    &&& forall|j: int| 1 <= j < name.len() ==> is_lower(#[trigger] name[j])
}

/// `name` is the capitalised spelling of three to eight alternating syllables
/// taken from the tables.
pub open spec fn spelled_name(name: Seq<char>) -> bool {
    exists|consonant_first: bool, picks: Seq<usize>|
        3 <= picks.len() <= 8 && #[trigger] picks_valid(consonant_first, picks) && capitalized(
            name,
            #[trigger] spelling(consonant_first, picks),
        )
}

fn ascii_upper(c: char) -> (r: char)
    requires
        is_lower(c),
    ensures
        capital_of(r, c),
        is_upper(r),
{
    ((c as u8) - 32) as char
}

/// The vowel syllable at `k` of the table.
fn vowel_syllable(k: usize) -> (r: &'static str)
    requires
        k < 13,
    ensures
        r@ == vowels()[k as int],
{
    match k {
        0 => {
            proof {
                reveal_strlit("a");
            }
            "a"
        },
        1 => {
            proof {
                reveal_strlit("aa");
            }
            "aa"
        },
        2 => {
            proof {
                reveal_strlit("ae");
            }
            "ae"
        },
        3 => {
            proof {
                reveal_strlit("oe");
            }
            "oe"
        },
        4 => {
            proof {
                reveal_strlit("e");
            }
            "e"
        },
        5 => {
            proof {
                reveal_strlit("ea");
            }
            "ea"
        },
        6 => {
            proof {
                reveal_strlit("i");
            }
            "i"
        },
        7 => {
            proof {
                reveal_strlit("ie");
            }
            "ie"
        },
        8 => {
            proof {
                reveal_strlit("o");
            }
            "o"
        },
        9 => {
            proof {
                reveal_strlit("oi");
            }
            "oi"
        },
        10 => {
            proof {
                reveal_strlit("ou");
            }
            "ou"
        },
        11 => {
            proof {
                reveal_strlit("u");
            }
            "u"
        },
        _ => {
            proof {
                reveal_strlit("ui");
            }
            "ui"
        },
    }
}

/// The consonant syllable at `k` of the table.
fn consonant_syllable(k: usize) -> (r: &'static str)
    requires
        k < 31,
    ensures
        r@ == consonants()[k as int],
{
    match k {
        0 => {
            proof {
                reveal_strlit("b");
            }
            "b"
        },
        1 => {
            proof {
                reveal_strlit("c");
            }
            "c"
        },
        2 => {
            proof {
                reveal_strlit("d");
            }
            "d"
        },
        3 => {
            proof {
                reveal_strlit("f");
            }
            "f"
        },
        4 => {
            proof {
                reveal_strlit("ff");
            }
            "ff"
        },
        5 => {
            proof {
                reveal_strlit("g");
            }
            "g"
        },
        6 => {
            proof {
                reveal_strlit("cg");
            }
            "cg"
        },
        7 => {
            proof {
                reveal_strlit("h");
            }
            "h"
        },
        8 => {
            proof {
                reveal_strlit("j");
            }
            "j"
        },
        9 => {
            proof {
                reveal_strlit("k");
            }
            "k"
        },
        10 => {
            proof {
                reveal_strlit("l");
            }
            "l"
        },
        11 => {
            proof {
                reveal_strlit("ll");
            }
            "ll"
        },
        12 => {
            proof {
                reveal_strlit("m");
            }
            "m"
        },
        13 => {
            proof {
                reveal_strlit("n");
            }
            "n"
        },
        14 => {
            proof {
                reveal_strlit("nn");
            }
            "nn"
        },
        15 => {
            proof {
                reveal_strlit("p");
            }
            "p"
        },
        16 => {
            proof {
                reveal_strlit("pp");
            }
            "pp"
        },
        17 => {
            proof {
                reveal_strlit("q");
            }
            "q"
        },
        18 => {
            proof {
                reveal_strlit("r");
            }
            "r"
        },
        19 => {
            proof {
                reveal_strlit("s");
            }
            "s"
        },
        20 => {
            proof {
                reveal_strlit("ss");
            }
            "ss"
        },
        21 => {
            proof {
                reveal_strlit("t");
            }
            "t"
        },
        22 => {
            proof {
                reveal_strlit("v");
            }
            "v"
        },
        23 => {
            proof {
                reveal_strlit("w");
            }
            "w"
        },
        24 => {
            proof {
                reveal_strlit("x");
            }
            "x"
        },
        25 => {
            proof {
                reveal_strlit("y");
            }
            "y"
        },
        26 => {
            proof {
                reveal_strlit("vy");
            }
            "vy"
        },
        27 => {
            proof {
                reveal_strlit("dy");
            }
            "dy"
        },
        28 => {
            proof {
                reveal_strlit("by");
            }
            "by"
        },
        29 => {
            proof {
                reveal_strlit("ly");
            }
            "ly"
        },
        _ => {
            proof {
                reveal_strlit("z");
            }
            "z"
        },
    }
}

/// Every syllable has one or two letters, the first of them in lower case.
pub proof fn lemma_syllable_shape(consonant: bool, k: int)
    requires
        0 <= k < syllables(consonant).len(),
    ensures
        1 <= syllables(consonant)[k].len() <= 2,
        forall|j: int| 0 <= j < syllables(consonant)[k].len() ==> is_lower(syllables(consonant)[k][j]),
{
}

/// A spelling is all in lower case.
proof fn lemma_spelling_lower(consonant_first: bool, picks: Seq<usize>)
    requires
        picks_valid(consonant_first, picks),
    ensures
        forall|j: int|
            0 <= j < spelling(consonant_first, picks).len() ==> is_lower(
                #[trigger] spelling(consonant_first, picks)[j],
            ),
    decreases picks.len(),
{
    if picks.len() > 0 {
        let rest = picks.drop_last();
        let k = picks.len() - 1;
        assert forall|m: int| 0 <= m < rest.len() implies (#[trigger] rest[m] as int) < syllables(
            consonant_at(consonant_first, m),
        ).len() by {
            assert(rest[m] == picks[m]);
        }
        lemma_spelling_lower(consonant_first, rest);
        assert(picks[k] == picks.last());
        let syl = syllables(consonant_at(consonant_first, k))[picks.last() as int];
        lemma_syllable_shape(consonant_at(consonant_first, k), picks.last() as int);
        let front = spelling(consonant_first, rest);
        let whole = spelling(consonant_first, picks);
        assert(whole == front + syl);
        assert forall|j: int| 0 <= j < whole.len() implies is_lower(#[trigger] whole[j]) by {
            if j < front.len() {
                assert(whole[j] == front[j]);
            } else {
                assert(whole[j] == syl[j - front.len()]);
            }
        }
    }
}

/// Spells the name whose syllable kinds alternate from `consonant_first` and
/// whose syllables are `picks`, indices into the tables, and capitalises it.
pub fn compose_name(consonant_first: bool, picks: &Vec<usize>) -> (name: String)
    requires
        picks_valid(consonant_first, picks@),
    ensures
        capitalized(name@, spelling(consonant_first, picks@)),
        picks.len() <= name@.len() <= 2 * picks.len(),
        picks.len() > 0 ==> is_upper(name@[0]),
        forall|j: int| 1 <= j < name@.len() ==> is_lower(#[trigger] name@[j]),
{
    let mut name = String::new();
    let mut consonant = consonant_first;
    let mut k: usize = 0;
    while k < picks.len()
        invariant
            k <= picks.len(),
            picks_valid(consonant_first, picks@),
            consonant == consonant_at(consonant_first, k as int),
            capitalized(name@, spelling(consonant_first, picks@.subrange(0, k as int))),
            k <= name@.len() <= 2 * k,
        decreases picks.len() - k,
    {
        let pick = picks[k];
        let syllable = if consonant {
            consonant_syllable(pick)
        } else {
            vowel_syllable(pick)
        };
        proof {
            lemma_syllable_shape(consonant, pick as int);
            assert(picks@.subrange(0, k + 1).drop_last() =~= picks@.subrange(0, k as int));
        }
        let ghost before = name@;
        if k == 0 {
            let first = syllable.get_char(0);
            push_char(&mut name, ascii_upper(first));
            let len = syllable.unicode_len();
            name.append(syllable.substring_char(1, len));
        } else {
            name.append(syllable);
        }
        proof {
            let s = spelling(consonant_first, picks@.subrange(0, k + 1));
            assert(s == spelling(consonant_first, picks@.subrange(0, k as int)) + syllable@);
            assert forall|j: int| 1 <= j < s.len() implies name@[j] == s[j] by {
                if k > 0 && j >= before.len() {
                    assert(name@[j] == syllable@[j - before.len()]);
                }
            }
        }
        consonant = !consonant;
        k += 1;
    }
    proof {
        assert(picks@.subrange(0, k as int) =~= picks@);
        lemma_spelling_lower(consonant_first, picks@);
    }
    name
}

/// Draws a fresh name: three to eight alternating syllables, the kind of the
/// first chosen by a coin, each syllable uniformly from its table.
pub fn generate_name() -> (name: String)
    ensures
        name_shaped(name@),
        spelled_name(name@),
{
    let consonant_first: bool = rand::random();
    let count = draw_between(3, 8);
    let mut picks: Vec<usize> = Vec::new();
    let mut consonant = consonant_first;
    let mut k: usize = 0;
    while k < count
        invariant
            k <= count <= 8,
            picks.len() == k,
            picks_valid(consonant_first, picks@),
            consonant == consonant_at(consonant_first, k as int),
        decreases count - k,
    {
        let hi: usize = if consonant { 30 } else { 12 };
        let pick = draw_between(0, hi);
        picks.push(pick);
        consonant = !consonant;
        k += 1;
    }
    let name = compose_name(consonant_first, &picks);
    proof {
        assert(picks_valid(consonant_first, picks@));
        assert(capitalized(name@, spelling(consonant_first, picks@)));
    }
    name
}

// ---------------------------------------------------------------------------
// Pieces

/// A King is always male and a Queen always female; the coin decides for
/// everyone else.
pub open spec fn sex_of(class: Class, coin: bool) -> Sex {
    match class {
        Class::King => Sex::Male,
        Class::Queen => Sex::Female,
        _ => if coin {
            Sex::Male
        } else {
            Sex::Female
        },
    }
}

/// The sex a piece of `class` gets, `coin` standing for a fair draw.
pub fn sex_for(class: Class, coin: bool) -> (r: Sex)
    ensures
        r == sex_of(class, coin),
{
    match class {
        Class::King => Sex::Male,
        Class::Queen => Sex::Female,
        _ => if coin {
            Sex::Male
        } else {
            Sex::Female
        },
    }
}

/// A piece as construction leaves it, friendships aside: no traits, no
/// enemy, a sex that fits its class and a well-shaped name.
pub open spec fn well_made(p: Piece) -> bool {
    &&& p.nature == 0
    &&& p.enemy.is_none()
    &&& (p.class == Class::King ==> p.sex == Sex::Male)
    &&& (p.class == Class::Queen ==> p.sex == Sex::Female)
    &&& name_shaped(p.name@)
    &&& spelled_name(p.name@)
}

/// What a freshly made piece looks like, before any friendship.
pub open spec fn fresh_piece(p: Piece, class: Class, side: Side, pos: Pos) -> bool {
    &&& p.class == class
    &&& p.side == side
    &&& p.pos == pos
    &&& p.friend.is_none()
    &&& well_made(p)
}

// ---------------------------------------------------------------------------
// The classic set, in the order: black specials, black pawns, white pawns,
// white specials.

pub open spec fn classic_class(i: int) -> Class {
    if 8 <= i < 24 {
        Class::Pawn
    } else {
        let x = i % 8;
        if x == 0 || x == 7 {
            Class::Rook
        } else if x == 1 || x == 6 {
            Class::Knight
        } else if x == 2 || x == 5 {
            Class::Bishop
        } else if x == 3 {
            Class::Queen
        } else {
            Class::King
        }
    }
}

pub open spec fn classic_side(i: int) -> Side {
    if i < 16 {
        Side::Black
    } else {
        Side::White
    }
}

pub open spec fn classic_row(i: int) -> i8 {
    if i < 8 {
        0
    } else if i < 16 {
        1
    } else if i < 24 {
        6
    } else {
        7
    }
}

pub open spec fn classic_at(p: Piece, i: int) -> bool {
    &&& p.class == classic_class(i)
    &&& p.side == classic_side(i)
    &&& p.pos@ == seq![(i % 8) as i8, classic_row(i)]
}

/// The 32 pieces stand in the canonical starting layout.
pub open spec fn is_classic_layout(ps: Seq<Piece>) -> bool {
    &&& ps.len() == CLASSIC_PIECES_N
    &&& forall|i: int| 0 <= i < CLASSIC_PIECES_N ==> #[trigger] classic_at(ps[i], i)
}

/// Piece `i` of the classic set.
fn classic_piece(i: usize) -> (p: Piece)
    requires
        i < CLASSIC_PIECES_N,
    ensures
        classic_at(p, i as int),
        fresh_piece(p, p.class, p.side, p.pos),
{
    let x: usize = i % 8;
    let class = if 8 <= i && i < 24 {
        Class::Pawn
    } else if x == 0 || x == 7 {
        Class::Rook
    } else if x == 1 || x == 6 {
        Class::Knight
    } else if x == 2 || x == 5 {
        Class::Bishop
    } else if x == 3 {
        Class::Queen
    } else {
        Class::King
    };
    let side = if i < 16 {
        Side::Black
    } else {
        Side::White
    };
    let row: i8 = if i < 8 {
        0
    } else if i < 16 {
        1
    } else if i < 24 {
        6
    } else {
        7
    };
    let pos: Pos = [x as i8, row];
    Piece::new(class, side, &pos)
}

impl Piece {
    /// A new piece of `class` and `side` standing on `pos`, with a generated
    /// name, a sex that fits its class, and no friend or enemy yet.
    pub fn new(class: Class, side: Side, pos: &Pos) -> (r: Piece)
        ensures
            fresh_piece(r, class, side, *pos),
    {
        let name = generate_name();
        let sex = sex_for(class, rand::random());
        Piece { class, side, sex, pos: *pos, nature: 0, name, friend: None, enemy: None }
    }

    pub fn get_class(&self) -> (r: Class)
        ensures
            r == self.class,
    {
        self.class
    }

    /// A piece whose `x` coordinate is negative has been taken.
    pub fn is_dead(&self) -> (r: bool)
        ensures
            r == (self.pos[0] < 0),
    {
        self.pos[0] < 0
    }

    /// Fills `legals` with the destinations this piece may move to and returns
    /// how many there are. Move rules are not part of this library: none.
    fn legal_moves(&self, legals: &mut LegalMoves) -> (r: usize)
        ensures
            r == 0,
            *final(legals) == *old(legals),
    {
        0
    }

    /// Whether `pos` is a legal destination. Move rules are not part of this
    /// library: never.
    pub fn is_legal_move(&self, pos: &Pos) -> (r: bool)
        ensures
            !r,
    {
        false
    }

    /// Moves the piece if `pos` is a legal destination, saying whether it did.
    pub fn try_move(&self, pos: &Pos) -> (r: bool)
        ensures
            !r,
    {
        self.is_legal_move(pos)
    }

    /// The classic set of 32 pieces in its starting layout, with friendships
    /// drawn among them.
    pub fn generate_classic() -> (pieces: [Piece; CLASSIC_PIECES_N])
        ensures
            is_classic_layout(pieces@),
            friendships_valid(pieces@),
            forall|i: int| 0 <= i < CLASSIC_PIECES_N ==> #[trigger] well_made(pieces@[i]),
    {
        let mut pieces = [
            classic_piece(0), classic_piece(1), classic_piece(2), classic_piece(3),
            classic_piece(4), classic_piece(5), classic_piece(6), classic_piece(7),
            classic_piece(8), classic_piece(9), classic_piece(10), classic_piece(11),
            classic_piece(12), classic_piece(13), classic_piece(14), classic_piece(15),
            classic_piece(16), classic_piece(17), classic_piece(18), classic_piece(19),
            classic_piece(20), classic_piece(21), classic_piece(22), classic_piece(23),
            classic_piece(24), classic_piece(25), classic_piece(26), classic_piece(27),
            classic_piece(28), classic_piece(29), classic_piece(30), classic_piece(31),
        ];
        let ghost made = pieces@;
        assert(forall|i: int|
            0 <= i < CLASSIC_PIECES_N ==> #[trigger] made[i].friend.is_none() && well_made(made[i]));
        assert(forall|i: int| 0 <= i < CLASSIC_PIECES_N ==> #[trigger] friend_ok(made, i));
        generate_relationships(&mut pieces);
        assert forall|i: int| 0 <= i < CLASSIC_PIECES_N implies #[trigger] well_made(pieces@[i]) by {
            assert(same_identity(made[i], pieces@[i]));
        }
        pieces
    }
}

} // verus!
