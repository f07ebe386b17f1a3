//! The rank ladder: a fixed, totally ordered set of thirty two-character
//! rank codes (`A0` through `A9`, `B0` through `B9`, `C0` through `C9`,
//! with `C9` terminal), together with the kill and headshot thresholds a
//! player must meet to advance into each rank.

use vstd::prelude::*;

verus! {

/// How many rank codes the ladder has.
pub const RANK_COUNT: usize = 30;

/// Position of the terminal rank `C9` in the ladder.
pub const TERMINAL_RANK: usize = 29;

/// The letter band of the rank at position `p`: `A` for the first ten
/// positions, `B` for the next ten, `C` for the last ten.
pub open spec fn letter_of(p: int) -> char {
    if p < 10 {
        'A'
    } else if p < 20 {
        'B'
    } else {
        'C'
    }
}

/// The digit character for a value `d` between 0 and 9.
pub open spec fn digit_of(d: int) -> char {
    if d == 0 {
        '0'
    } else if d == 1 {
        '1'
    } else if d == 2 {
        '2'
    } else if d == 3 {
        '3'
    } else if d == 4 {
        '4'
    } else if d == 5 {
        '5'
    } else if d == 6 {
        '6'
    } else if d == 7 {
        '7'
    } else if d == 8 {
        '8'
    } else {
        '9'
    }
}

/// The two-character code of the rank at position `p` of the ladder:
/// position 0 is `A0`, position 15 is `B5`, position 29 is `C9`.
pub open spec fn rank_name(p: int) -> Seq<char> {
    seq![letter_of(p), digit_of(p % 10)]
}

/// Whether `s` is one of the thirty rank codes: a band letter `A`..`C`
/// followed by a decimal digit.
pub open spec fn is_rank_code(s: Seq<char>) -> bool {
    &&& s.len() == 2
    &&& 'A' as int <= s[0] as int <= 'C' as int
    &&& '0' as int <= s[1] as int <= '9' as int
}

/// The position in the ladder of the rank code `s`; meaningful only when
/// `is_rank_code(s)` holds.
pub open spec fn rank_position(s: Seq<char>) -> int {
    (s[0] as int - 'A' as int) * 10 + (s[1] as int - '0' as int)
}

/// Minimum kill count required to advance into the rank at position `q`;
/// meaningful for `1 <= q < RANK_COUNT`.
pub open spec fn kills_needed(q: int) -> int {
    if q <= 1 {
        500
    } else if q == 2 {
        800
    } else if q <= 8 {
        1000 + 400 * (q - 3)
    } else {
        3500 + 500 * (q - 9)
    }
}

/// Minimum headshot count required to advance into the rank at position
/// `q`; meaningful for `1 <= q < RANK_COUNT`.
pub open spec fn headshots_needed(q: int) -> int {
    50 * q
}

/// A rank code determines its position: parsing the name of position `p`
/// gives back `p`.
pub proof fn lemma_rank_name_position(p: int)
    requires
        0 <= p < RANK_COUNT,
    ensures
        is_rank_code(rank_name(p)),
        rank_position(rank_name(p)) == p,
{
}

/// Parses a rank code into its ladder position: `Some(p)` exactly when
/// `s` is one of the thirty rank codes, in which case `p` is its position.
pub fn parse_rank(s: &str) -> (r: Option<u8>)
    ensures
        r is Some <==> is_rank_code(s@),
        r is Some ==> r.unwrap() < RANK_COUNT && r.unwrap() as int == rank_position(s@),
{
    let n = s.unicode_len();
    if n != 2 {
        return None;
    }
    let c0 = s.get_char(0);
    let c1 = s.get_char(1);
    let x = c0 as u32;
    let y = c1 as u32;
    if 65 <= x && x <= 67 && 48 <= y && y <= 57 {
        let p = ((x - 65) * 10 + (y - 48)) as u8;
        Some(p)
    } else {
        None
    }
}

/// The rank code at position `p` of the ladder, as a string.
pub fn rank_code(p: u8) -> (r: String)
    requires
        p < RANK_COUNT,
    ensures
        r@ == rank_name(p as int),
{
    let s: &str = if p == 0 {
        "A0"
    } else if p == 1 {
        "A1"
    } else if p == 2 {
        "A2"
    } else if p == 3 {
        "A3"
    } else if p == 4 {
        "A4"
    } else if p == 5 {
        "A5"
    } else if p == 6 {
        "A6"
    } else if p == 7 {
        "A7"
    } else if p == 8 {
        "A8"
    } else if p == 9 {
        "A9"
    } else if p == 10 {
        "B0"
    } else if p == 11 {
        "B1"
    } else if p == 12 {
        "B2"
    } else if p == 13 {
        "B3"
    } else if p == 14 {
        "B4"
    } else if p == 15 {
        "B5"
    } else if p == 16 {
        "B6"
    } else if p == 17 {
        "B7"
    } else if p == 18 {
        "B8"
    } else if p == 19 {
        "B9"
    } else if p == 20 {
        "C0"
    } else if p == 21 {
        "C1"
    } else if p == 22 {
        "C2"
    } else if p == 23 {
        "C3"
    } else if p == 24 {
        "C4"
    } else if p == 25 {
        "C5"
    } else if p == 26 {
        "C6"
    } else if p == 27 {
        "C7"
    } else if p == 28 {
        "C8"
    } else {
        "C9"
    };
    proof {
        reveal_strlit("A0");
        reveal_strlit("A1");
        reveal_strlit("A2");
        reveal_strlit("A3");
        reveal_strlit("A4");
        reveal_strlit("A5");
        reveal_strlit("A6");
        reveal_strlit("A7");
        reveal_strlit("A8");
        reveal_strlit("A9");
        reveal_strlit("B0");
        reveal_strlit("B1");
        reveal_strlit("B2");
        reveal_strlit("B3");
        reveal_strlit("B4");
        reveal_strlit("B5");
        reveal_strlit("B6");
        reveal_strlit("B7");
        reveal_strlit("B8");
        reveal_strlit("B9");
        reveal_strlit("C0");
        reveal_strlit("C1");
        reveal_strlit("C2");
        reveal_strlit("C3");
        reveal_strlit("C4");
        reveal_strlit("C5");
        reveal_strlit("C6");
        reveal_strlit("C7");
        reveal_strlit("C8");
        reveal_strlit("C9");
        assert(s@ =~= rank_name(p as int));
    }
    s.to_owned()
}

/// Minimum kill count required to advance into the rank at position `q`.
pub fn kills_required(q: usize) -> (k: i64)
    requires
        1 <= q < RANK_COUNT,
    ensures
        k as int == kills_needed(q as int),
{
    if q <= 1 {
        500
    } else if q == 2 {
        800
    } else if q <= 8 {
        1000 + 400 * (q as i64 - 3)
    } else {
        3500 + 500 * (q as i64 - 9)
    }
}

/// Minimum headshot count required to advance into the rank at position `q`.
pub fn headshots_required(q: usize) -> (h: i64)
    requires
        1 <= q < RANK_COUNT,
    ensures
        h as int == headshots_needed(q as int),
{
    50 * (q as i64)
}

} // verus!
