//! The letters of the screen: seven rows of five dots each.
//!
//! A row is a number below 32, and its highest bit is the dot on the left.
use vstd::prelude::*;

verus! {

/// What stands for a character that has no letter of its own.
pub open spec fn unknown_sign() -> Seq<u8> {
    seq![31u8, 17, 1, 6, 4, 0, 4]
}

/// The rows of a capital letter.
pub open spec fn letter_rows(c: char) -> Seq<u8> {
    match c {
        'A' => seq![14u8, 17, 17, 31, 17, 17, 17],
        'B' => seq![30u8, 17, 17, 30, 17, 17, 30],
        'C' => seq![14u8, 17, 16, 16, 16, 17, 14],
        'D' => seq![30u8, 17, 17, 17, 17, 17, 30],
        'E' => seq![31u8, 16, 16, 30, 16, 16, 31],
        'F' => seq![31u8, 16, 16, 30, 16, 16, 16],
        'G' => seq![14u8, 17, 16, 23, 17, 17, 14],
        'H' => seq![17u8, 17, 17, 31, 17, 17, 17],
        'I' => seq![31u8, 4, 4, 4, 4, 4, 31],
        'J' => seq![7u8, 2, 2, 2, 18, 18, 12],
        'K' => seq![17u8, 18, 20, 24, 20, 18, 17],
        'L' => seq![16u8, 16, 16, 16, 16, 16, 31],
        'M' => seq![17u8, 27, 21, 21, 17, 17, 17],
        'N' => seq![17u8, 25, 21, 19, 17, 17, 17],
        'O' => seq![14u8, 17, 17, 17, 17, 17, 14],
        'P' => seq![30u8, 17, 17, 30, 16, 16, 16],
        'Q' => seq![14u8, 17, 17, 17, 21, 18, 13],
        'R' => seq![30u8, 17, 17, 30, 20, 18, 17],
        'S' => seq![15u8, 16, 16, 14, 1, 1, 30],
        'T' => seq![31u8, 4, 4, 4, 4, 4, 4],
        'U' => seq![17u8, 17, 17, 17, 17, 17, 14],
        'V' => seq![17u8, 17, 17, 17, 17, 10, 4],
        'W' => seq![17u8, 17, 17, 21, 21, 21, 10],
        'X' => seq![17u8, 17, 10, 4, 10, 17, 17],
        'Y' => seq![17u8, 17, 10, 4, 4, 4, 4],
        'Z' => seq![31u8, 1, 2, 4, 8, 16, 31],
        _ => unknown_sign(),
    }
}

/// The rows of a digit.
pub open spec fn digit_rows(c: char) -> Seq<u8> {
    match c {
        '0' => seq![14u8, 17, 19, 21, 25, 17, 14],
        '1' => seq![4u8, 12, 4, 4, 4, 4, 14],
        '2' => seq![14u8, 17, 1, 2, 4, 8, 31],
        '3' => seq![30u8, 1, 1, 14, 1, 1, 30],
        '4' => seq![2u8, 6, 10, 18, 31, 2, 2],
        '5' => seq![31u8, 16, 16, 30, 1, 1, 30],
        '6' => seq![14u8, 16, 16, 30, 17, 17, 14],
        '7' => seq![31u8, 1, 2, 4, 8, 8, 8],
        '8' => seq![14u8, 17, 17, 14, 17, 17, 14],
        '9' => seq![14u8, 17, 17, 15, 1, 1, 14],
        _ => unknown_sign(),
    }
}

/// The rows of a punctuation sign.
pub open spec fn sign_rows(c: char) -> Seq<u8> {
    match c {
        ':' => seq![0u8, 4, 4, 0, 4, 4, 0],
        '.' => seq![0u8, 0, 0, 0, 0, 12, 12],
        '%' => seq![17u8, 18, 4, 8, 19, 17, 0],
        '-' => seq![0u8, 0, 0, 31, 0, 0, 0],
        '/' => seq![1u8, 2, 2, 4, 8, 8, 16],
        '#' => seq![10u8, 31, 10, 10, 31, 10, 0],
        '!' => seq![4u8, 4, 4, 4, 4, 0, 4],
        '"' => seq![10u8, 10, 10, 0, 0, 0, 0],
        '$' => seq![4u8, 15, 20, 14, 5, 30, 4],
        '&' => seq![12u8, 18, 20, 8, 21, 18, 13],
        '\'' => seq![4u8, 4, 8, 0, 0, 0, 0],
        '(' => seq![2u8, 4, 8, 8, 8, 4, 2],
        ')' => seq![8u8, 4, 2, 2, 2, 4, 8],
        '*' => seq![0u8, 21, 14, 31, 14, 21, 0],
        '+' => seq![0u8, 4, 4, 31, 4, 4, 0],
        ',' => seq![0u8, 0, 0, 0, 4, 4, 8],
        ';' => seq![0u8, 4, 4, 0, 4, 4, 8],
        '<' => seq![2u8, 4, 8, 16, 8, 4, 2],
        '=' => seq![0u8, 0, 31, 0, 31, 0, 0],
        '>' => seq![8u8, 4, 2, 1, 2, 4, 8],
        '?' => seq![14u8, 17, 1, 6, 4, 0, 4],
        '@' => seq![14u8, 17, 23, 21, 23, 16, 14],
        '[' => seq![14u8, 8, 8, 8, 8, 8, 14],
        '\\' => seq![16u8, 8, 8, 4, 2, 2, 1],
        ']' => seq![14u8, 2, 2, 2, 2, 2, 14],
        '^' => seq![4u8, 10, 17, 0, 0, 0, 0],
        '_' => seq![0u8, 0, 0, 0, 0, 0, 31],
        '`' => seq![8u8, 4, 2, 0, 0, 0, 0],
        '{' => seq![3u8, 4, 4, 8, 4, 4, 3],
        '|' => seq![4u8, 4, 4, 4, 4, 4, 4],
        '}' => seq![24u8, 4, 4, 2, 4, 4, 24],
        '~' => seq![0u8, 0, 9, 22, 0, 0, 0],
        _ => unknown_sign(),
    }
}

/// The rows of a character. Small letters have none of their own.
pub open spec fn glyph_rows(c: char) -> Seq<u8> {
    if 'A' <= c <= 'Z' {
        letter_rows(c)
    } else if '0' <= c <= '9' {
        digit_rows(c)
    } else if c == ' ' {
        seq![0u8, 0, 0, 0, 0, 0, 0]
    } else {
        sign_rows(c)
    }
}

fn letter(c: char) -> (rows: [u8; 7])
    ensures
        rows@ == letter_rows(c),
{
    match c {
        'A' => [14, 17, 17, 31, 17, 17, 17],
        'B' => [30, 17, 17, 30, 17, 17, 30],
        'C' => [14, 17, 16, 16, 16, 17, 14],
        'D' => [30, 17, 17, 17, 17, 17, 30],
        'E' => [31, 16, 16, 30, 16, 16, 31],
        'F' => [31, 16, 16, 30, 16, 16, 16],
        'G' => [14, 17, 16, 23, 17, 17, 14],
        'H' => [17, 17, 17, 31, 17, 17, 17],
        'I' => [31, 4, 4, 4, 4, 4, 31],
        'J' => [7, 2, 2, 2, 18, 18, 12],
        'K' => [17, 18, 20, 24, 20, 18, 17],
        'L' => [16, 16, 16, 16, 16, 16, 31],
        'M' => [17, 27, 21, 21, 17, 17, 17],
        'N' => [17, 25, 21, 19, 17, 17, 17],
        'O' => [14, 17, 17, 17, 17, 17, 14],
        'P' => [30, 17, 17, 30, 16, 16, 16],
        'Q' => [14, 17, 17, 17, 21, 18, 13],
        'R' => [30, 17, 17, 30, 20, 18, 17],
        'S' => [15, 16, 16, 14, 1, 1, 30],
        'T' => [31, 4, 4, 4, 4, 4, 4],
        'U' => [17, 17, 17, 17, 17, 17, 14],
        'V' => [17, 17, 17, 17, 17, 10, 4],
        'W' => [17, 17, 17, 21, 21, 21, 10],
        'X' => [17, 17, 10, 4, 10, 17, 17],
        'Y' => [17, 17, 10, 4, 4, 4, 4],
        'Z' => [31, 1, 2, 4, 8, 16, 31],
        _ => [31, 17, 1, 6, 4, 0, 4],
    }
}

fn digit(c: char) -> (rows: [u8; 7])
    ensures
        rows@ == digit_rows(c),
{
    match c {
        '0' => [14, 17, 19, 21, 25, 17, 14],
        '1' => [4, 12, 4, 4, 4, 4, 14],
        '2' => [14, 17, 1, 2, 4, 8, 31],
        '3' => [30, 1, 1, 14, 1, 1, 30],
        '4' => [2, 6, 10, 18, 31, 2, 2],
        '5' => [31, 16, 16, 30, 1, 1, 30],
        '6' => [14, 16, 16, 30, 17, 17, 14],
        '7' => [31, 1, 2, 4, 8, 8, 8],
        '8' => [14, 17, 17, 14, 17, 17, 14],
        '9' => [14, 17, 17, 15, 1, 1, 14],
        _ => [31, 17, 1, 6, 4, 0, 4],
    }
}

fn sign(c: char) -> (rows: [u8; 7])
    ensures
        rows@ == sign_rows(c),
{
    match c {
        ':' => [0, 4, 4, 0, 4, 4, 0],
        '.' => [0, 0, 0, 0, 0, 12, 12],
        '%' => [17, 18, 4, 8, 19, 17, 0],
        '-' => [0, 0, 0, 31, 0, 0, 0],
        '/' => [1, 2, 2, 4, 8, 8, 16],
        '#' => [10, 31, 10, 10, 31, 10, 0],
        '!' => [4, 4, 4, 4, 4, 0, 4],
        '"' => [10, 10, 10, 0, 0, 0, 0],
        '$' => [4, 15, 20, 14, 5, 30, 4],
        '&' => [12, 18, 20, 8, 21, 18, 13],
        '\'' => [4, 4, 8, 0, 0, 0, 0],
        '(' => [2, 4, 8, 8, 8, 4, 2],
        ')' => [8, 4, 2, 2, 2, 4, 8],
        '*' => [0, 21, 14, 31, 14, 21, 0],
        '+' => [0, 4, 4, 31, 4, 4, 0],
        ',' => [0, 0, 0, 0, 4, 4, 8],
        ';' => [0, 4, 4, 0, 4, 4, 8],
        '<' => [2, 4, 8, 16, 8, 4, 2],
        '=' => [0, 0, 31, 0, 31, 0, 0],
        '>' => [8, 4, 2, 1, 2, 4, 8],
        '?' => [14, 17, 1, 6, 4, 0, 4],
        '@' => [14, 17, 23, 21, 23, 16, 14],
        '[' => [14, 8, 8, 8, 8, 8, 14],
        '\\' => [16, 8, 8, 4, 2, 2, 1],
        ']' => [14, 2, 2, 2, 2, 2, 14],
        '^' => [4, 10, 17, 0, 0, 0, 0],
        '_' => [0, 0, 0, 0, 0, 0, 31],
        '`' => [8, 4, 2, 0, 0, 0, 0],
        '{' => [3, 4, 4, 8, 4, 4, 3],
        '|' => [4, 4, 4, 4, 4, 4, 4],
        '}' => [24, 4, 4, 2, 4, 4, 24],
        '~' => [0, 0, 9, 22, 0, 0, 0],
        _ => [31, 17, 1, 6, 4, 0, 4],
    }
}

/// The rows of a character.
pub fn glyph(c: char) -> (rows: [u8; 7])
    ensures
        rows@ == glyph_rows(c),
{
    if 'A' <= c && c <= 'Z' {
        letter(c)
    } else if '0' <= c && c <= '9' {
        digit(c)
    } else if c == ' ' {
        [0, 0, 0, 0, 0, 0, 0]
    } else {
        sign(c)
    }
}

/// A character with a small ASCII letter turned into a capital.
pub open spec fn capital(c: char) -> char {
    if 'a' <= c <= 'z' {
        (c as u32 - 32) as char
    } else {
        c
    }
}

/// A character with a small ASCII letter turned into a capital.
pub fn to_capital(c: char) -> (capital: char)
    ensures
        capital == self::capital(c),
{
    if 'a' <= c && c <= 'z' {
        ((c as u32 - 32) as u8) as char
    } else {
        c
    }
}

/// Every row of a glyph has five dots.
pub proof fn law_glyphs_are_seven_rows_of_five(c: char, row: int)
    requires
        0 <= row < 7,
    ensures
        glyph_rows(c).len() == 7,
        glyph_rows(c)[row] < 32,
{
}

/// The printable ASCII characters.
pub open spec fn printable(c: char) -> bool {
    ' ' <= c <= '~'
}

/// Every printable ASCII character has rows of its own once its letters are capitals.
pub proof fn law_printable_characters_can_be_drawn(c: char)
    requires
        printable(c),
    ensures
        glyph_rows(capital(c)) != unknown_sign(),
{
    let drawn = glyph_rows(capital(c));
    let unknown = unknown_sign();
    if drawn == unknown {
        assert(drawn[0] == 31 && drawn[1] == 17 && drawn[2] == 1);
        assert(false);
    }
}

/// Small letters are drawn as the capitals, and everything else as itself.
pub proof fn law_small_letters_look_like_capitals(c: char)
    ensures
        'A' <= c <= 'Z' ==> capital((c as u32 + 32) as char) == c && capital(c) == c,
        !('a' <= c <= 'z') ==> capital(c) == c,
        'a' <= c <= 'z' ==> capital(c) as u32 + 32 == c as u32,
{
}

/// What stands for a character that has no letter of its own, as a picture.
pub open spec fn unknown_picture() -> Seq<char> {
    "#####/#...#/....#/..##./..#../...../..#.."@
}

/// What a capital letter looks like: its rows from the top, with a mark for every dot.
pub open spec fn letter_picture(c: char) -> Seq<char> {
    match c {
        'A' => ".###./#...#/#...#/#####/#...#/#...#/#...#"@,
        'B' => "####./#...#/#...#/####./#...#/#...#/####."@,
        'C' => ".###./#...#/#..../#..../#..../#...#/.###."@,
        'D' => "####./#...#/#...#/#...#/#...#/#...#/####."@,
        'E' => "#####/#..../#..../####./#..../#..../#####"@,
        'F' => "#####/#..../#..../####./#..../#..../#...."@,
        'G' => ".###./#...#/#..../#.###/#...#/#...#/.###."@,
        'H' => "#...#/#...#/#...#/#####/#...#/#...#/#...#"@,
        'I' => "#####/..#../..#../..#../..#../..#../#####"@,
        'J' => "..###/...#./...#./...#./#..#./#..#./.##.."@,
        'K' => "#...#/#..#./#.#../##.../#.#../#..#./#...#"@,
        'L' => "#..../#..../#..../#..../#..../#..../#####"@,
        'M' => "#...#/##.##/#.#.#/#.#.#/#...#/#...#/#...#"@,
        'N' => "#...#/##..#/#.#.#/#..##/#...#/#...#/#...#"@,
        'O' => ".###./#...#/#...#/#...#/#...#/#...#/.###."@,
        'P' => "####./#...#/#...#/####./#..../#..../#...."@,
        'Q' => ".###./#...#/#...#/#...#/#.#.#/#..#./.##.#"@,
        'R' => "####./#...#/#...#/####./#.#../#..#./#...#"@,
        'S' => ".####/#..../#..../.###./....#/....#/####."@,
        'T' => "#####/..#../..#../..#../..#../..#../..#.."@,
        'U' => "#...#/#...#/#...#/#...#/#...#/#...#/.###."@,
        'V' => "#...#/#...#/#...#/#...#/#...#/.#.#./..#.."@,
        'W' => "#...#/#...#/#...#/#.#.#/#.#.#/#.#.#/.#.#."@,
        'X' => "#...#/#...#/.#.#./..#../.#.#./#...#/#...#"@,
        'Y' => "#...#/#...#/.#.#./..#../..#../..#../..#.."@,
        'Z' => "#####/....#/...#./..#../.#.../#..../#####"@,
        _ => unknown_picture(),
    }
}

/// What a digit looks like.
pub open spec fn digit_picture(c: char) -> Seq<char> {
    match c {
        '0' => ".###./#...#/#..##/#.#.#/##..#/#...#/.###."@,
        '1' => "..#../.##../..#../..#../..#../..#../.###."@,
        '2' => ".###./#...#/....#/...#./..#../.#.../#####"@,
        '3' => "####./....#/....#/.###./....#/....#/####."@,
        '4' => "...#./..##./.#.#./#..#./#####/...#./...#."@,
        '5' => "#####/#..../#..../####./....#/....#/####."@,
        '6' => ".###./#..../#..../####./#...#/#...#/.###."@,
        '7' => "#####/....#/...#./..#../.#.../.#.../.#..."@,
        '8' => ".###./#...#/#...#/.###./#...#/#...#/.###."@,
        '9' => ".###./#...#/#...#/.####/....#/....#/.###."@,
        _ => unknown_picture(),
    }
}

/// What a punctuation sign looks like.
pub open spec fn sign_picture(c: char) -> Seq<char> {
    match c {
        ':' => "...../..#../..#../...../..#../..#../....."@,
        '.' => "...../...../...../...../...../.##../.##.."@,
        '%' => "#...#/#..#./..#../.#.../#..##/#...#/....."@,
        '-' => "...../...../...../#####/...../...../....."@,
        '/' => "....#/...#./...#./..#../.#.../.#.../#...."@,
        '#' => ".#.#./#####/.#.#./.#.#./#####/.#.#./....."@,
        '!' => "..#../..#../..#../..#../..#../...../..#.."@,
        '"' => ".#.#./.#.#./.#.#./...../...../...../....."@,
        '$' => "..#../.####/#.#../.###./..#.#/####./..#.."@,
        '&' => ".##../#..#./#.#../.#.../#.#.#/#..#./.##.#"@,
        '\'' => "..#../..#../.#.../...../...../...../....."@,
        '(' => "...#./..#../.#.../.#.../.#.../..#../...#."@,
        ')' => ".#.../..#../...#./...#./...#./..#../.#..."@,
        '*' => "...../#.#.#/.###./#####/.###./#.#.#/....."@,
        '+' => "...../..#../..#../#####/..#../..#../....."@,
        ',' => "...../...../...../...../..#../..#../.#..."@,
        ';' => "...../..#../..#../...../..#../..#../.#..."@,
        '<' => "...#./..#../.#.../#..../.#.../..#../...#."@,
        '=' => "...../...../#####/...../#####/...../....."@,
        '>' => ".#.../..#../...#./....#/...#./..#../.#..."@,
        '?' => ".###./#...#/....#/..##./..#../...../..#.."@,
        '@' => ".###./#...#/#.###/#.#.#/#.###/#..../.###."@,
        '[' => ".###./.#.../.#.../.#.../.#.../.#.../.###."@,
        '\\' => "#..../.#.../.#.../..#../...#./...#./....#"@,
        ']' => ".###./...#./...#./...#./...#./...#./.###."@,
        '^' => "..#../.#.#./#...#/...../...../...../....."@,
        '_' => "...../...../...../...../...../...../#####"@,
        '`' => ".#.../..#../...#./...../...../...../....."@,
        '{' => "...##/..#../..#../.#.../..#../..#../...##"@,
        '|' => "..#../..#../..#../..#../..#../..#../..#.."@,
        '}' => "##.../..#../..#../...#./..#../..#../##..."@,
        '~' => "...../...../.#..#/#.##./...../...../....."@,
        _ => unknown_picture(),
    }
}

/// One for a mark and nothing for a gap.
pub open spec fn mark(c: char) -> int {
    if c == '#' {
        1
    } else {
        0
    }
}

/// A row of a picture as a number.
pub open spec fn drawn_row(picture: Seq<char>, row: int) -> int {
    16 * mark(picture[6 * row]) + 8 * mark(picture[6 * row + 1]) + 4 * mark(picture[6 * row + 2])
        + 2 * mark(picture[6 * row + 3]) + mark(picture[6 * row + 4])
}

/// Whether rows are those of a picture.
pub open spec fn drawn(rows: Seq<u8>, picture: Seq<char>) -> bool {
    &&& rows.len() == 7
    &&& rows[0] == drawn_row(picture, 0)
    &&& rows[1] == drawn_row(picture, 1)
    &&& rows[2] == drawn_row(picture, 2)
    &&& rows[3] == drawn_row(picture, 3)
    &&& rows[4] == drawn_row(picture, 4)
    &&& rows[5] == drawn_row(picture, 5)
    &&& rows[6] == drawn_row(picture, 6)
}

/// The capital letters look like this.
pub proof fn law_letters_look_like_their_pictures(c: char)
    requires
        'A' <= c <= 'Z',
    ensures
        drawn(glyph_rows(c), letter_picture(c)),
{
    if c == 'A' {
        reveal_strlit(".###./#...#/#...#/#####/#...#/#...#/#...#");
        assert(drawn(glyph_rows(c), ".###./#...#/#...#/#####/#...#/#...#/#...#"@));
    } else     if c == 'B' {
        reveal_strlit("####./#...#/#...#/####./#...#/#...#/####.");
        assert(drawn(glyph_rows(c), "####./#...#/#...#/####./#...#/#...#/####."@));
    } else     if c == 'C' {
        reveal_strlit(".###./#...#/#..../#..../#..../#...#/.###.");
        assert(drawn(glyph_rows(c), ".###./#...#/#..../#..../#..../#...#/.###."@));
    } else     if c == 'D' {
        reveal_strlit("####./#...#/#...#/#...#/#...#/#...#/####.");
        assert(drawn(glyph_rows(c), "####./#...#/#...#/#...#/#...#/#...#/####."@));
    } else     if c == 'E' {
        reveal_strlit("#####/#..../#..../####./#..../#..../#####");
        assert(drawn(glyph_rows(c), "#####/#..../#..../####./#..../#..../#####"@));
    } else     if c == 'F' {
        reveal_strlit("#####/#..../#..../####./#..../#..../#....");
        assert(drawn(glyph_rows(c), "#####/#..../#..../####./#..../#..../#...."@));
    } else     if c == 'G' {
        reveal_strlit(".###./#...#/#..../#.###/#...#/#...#/.###.");
        assert(drawn(glyph_rows(c), ".###./#...#/#..../#.###/#...#/#...#/.###."@));
    } else     if c == 'H' {
        reveal_strlit("#...#/#...#/#...#/#####/#...#/#...#/#...#");
        assert(drawn(glyph_rows(c), "#...#/#...#/#...#/#####/#...#/#...#/#...#"@));
    } else     if c == 'I' {
        reveal_strlit("#####/..#../..#../..#../..#../..#../#####");
        assert(drawn(glyph_rows(c), "#####/..#../..#../..#../..#../..#../#####"@));
    } else     if c == 'J' {
        reveal_strlit("..###/...#./...#./...#./#..#./#..#./.##..");
        assert(drawn(glyph_rows(c), "..###/...#./...#./...#./#..#./#..#./.##.."@));
    } else     if c == 'K' {
        reveal_strlit("#...#/#..#./#.#../##.../#.#../#..#./#...#");
        assert(drawn(glyph_rows(c), "#...#/#..#./#.#../##.../#.#../#..#./#...#"@));
    } else     if c == 'L' {
        reveal_strlit("#..../#..../#..../#..../#..../#..../#####");
        assert(drawn(glyph_rows(c), "#..../#..../#..../#..../#..../#..../#####"@));
    } else     if c == 'M' {
        reveal_strlit("#...#/##.##/#.#.#/#.#.#/#...#/#...#/#...#");
        assert(drawn(glyph_rows(c), "#...#/##.##/#.#.#/#.#.#/#...#/#...#/#...#"@));
    } else     if c == 'N' {
        reveal_strlit("#...#/##..#/#.#.#/#..##/#...#/#...#/#...#");
        assert(drawn(glyph_rows(c), "#...#/##..#/#.#.#/#..##/#...#/#...#/#...#"@));
    } else     if c == 'O' {
        reveal_strlit(".###./#...#/#...#/#...#/#...#/#...#/.###.");
        assert(drawn(glyph_rows(c), ".###./#...#/#...#/#...#/#...#/#...#/.###."@));
    } else     if c == 'P' {
        reveal_strlit("####./#...#/#...#/####./#..../#..../#....");
        assert(drawn(glyph_rows(c), "####./#...#/#...#/####./#..../#..../#...."@));
    } else     if c == 'Q' {
        reveal_strlit(".###./#...#/#...#/#...#/#.#.#/#..#./.##.#");
        assert(drawn(glyph_rows(c), ".###./#...#/#...#/#...#/#.#.#/#..#./.##.#"@));
    } else     if c == 'R' {
        reveal_strlit("####./#...#/#...#/####./#.#../#..#./#...#");
        assert(drawn(glyph_rows(c), "####./#...#/#...#/####./#.#../#..#./#...#"@));
    } else     if c == 'S' {
        reveal_strlit(".####/#..../#..../.###./....#/....#/####.");
        assert(drawn(glyph_rows(c), ".####/#..../#..../.###./....#/....#/####."@));
    } else     if c == 'T' {
        reveal_strlit("#####/..#../..#../..#../..#../..#../..#..");
        assert(drawn(glyph_rows(c), "#####/..#../..#../..#../..#../..#../..#.."@));
    } else     if c == 'U' {
        reveal_strlit("#...#/#...#/#...#/#...#/#...#/#...#/.###.");
        assert(drawn(glyph_rows(c), "#...#/#...#/#...#/#...#/#...#/#...#/.###."@));
    } else     if c == 'V' {
        reveal_strlit("#...#/#...#/#...#/#...#/#...#/.#.#./..#..");
        assert(drawn(glyph_rows(c), "#...#/#...#/#...#/#...#/#...#/.#.#./..#.."@));
    } else     if c == 'W' {
        reveal_strlit("#...#/#...#/#...#/#.#.#/#.#.#/#.#.#/.#.#.");
        assert(drawn(glyph_rows(c), "#...#/#...#/#...#/#.#.#/#.#.#/#.#.#/.#.#."@));
    } else     if c == 'X' {
        reveal_strlit("#...#/#...#/.#.#./..#../.#.#./#...#/#...#");
        assert(drawn(glyph_rows(c), "#...#/#...#/.#.#./..#../.#.#./#...#/#...#"@));
    } else     if c == 'Y' {
        reveal_strlit("#...#/#...#/.#.#./..#../..#../..#../..#..");
        assert(drawn(glyph_rows(c), "#...#/#...#/.#.#./..#../..#../..#../..#.."@));
    } else     if c == 'Z' {
        reveal_strlit("#####/....#/...#./..#../.#.../#..../#####");
        assert(drawn(glyph_rows(c), "#####/....#/...#./..#../.#.../#..../#####"@));
    }
}

/// The digits look like this.
pub proof fn law_digits_look_like_their_pictures(c: char)
    requires
        '0' <= c <= '9',
    ensures
        drawn(glyph_rows(c), digit_picture(c)),
{
    if c == '0' {
        reveal_strlit(".###./#...#/#..##/#.#.#/##..#/#...#/.###.");
        assert(drawn(glyph_rows(c), ".###./#...#/#..##/#.#.#/##..#/#...#/.###."@));
    } else     if c == '1' {
        reveal_strlit("..#../.##../..#../..#../..#../..#../.###.");
        assert(drawn(glyph_rows(c), "..#../.##../..#../..#../..#../..#../.###."@));
    } else     if c == '2' {
        reveal_strlit(".###./#...#/....#/...#./..#../.#.../#####");
        assert(drawn(glyph_rows(c), ".###./#...#/....#/...#./..#../.#.../#####"@));
    } else     if c == '3' {
        reveal_strlit("####./....#/....#/.###./....#/....#/####.");
        assert(drawn(glyph_rows(c), "####./....#/....#/.###./....#/....#/####."@));
    } else     if c == '4' {
        reveal_strlit("...#./..##./.#.#./#..#./#####/...#./...#.");
        assert(drawn(glyph_rows(c), "...#./..##./.#.#./#..#./#####/...#./...#."@));
    } else     if c == '5' {
        reveal_strlit("#####/#..../#..../####./....#/....#/####.");
        assert(drawn(glyph_rows(c), "#####/#..../#..../####./....#/....#/####."@));
    } else     if c == '6' {
        reveal_strlit(".###./#..../#..../####./#...#/#...#/.###.");
        assert(drawn(glyph_rows(c), ".###./#..../#..../####./#...#/#...#/.###."@));
    } else     if c == '7' {
        reveal_strlit("#####/....#/...#./..#../.#.../.#.../.#...");
        assert(drawn(glyph_rows(c), "#####/....#/...#./..#../.#.../.#.../.#..."@));
    } else     if c == '8' {
        reveal_strlit(".###./#...#/#...#/.###./#...#/#...#/.###.");
        assert(drawn(glyph_rows(c), ".###./#...#/#...#/.###./#...#/#...#/.###."@));
    } else     if c == '9' {
        reveal_strlit(".###./#...#/#...#/.####/....#/....#/.###.");
        assert(drawn(glyph_rows(c), ".###./#...#/#...#/.####/....#/....#/.###."@));
    }
}

/// The punctuation signs look like this.
pub proof fn law_signs_look_like_their_pictures(c: char)
    requires
        '!' <= c <= '/' || ':' <= c <= '@' || '[' <= c <= '`' || '{' <= c <= '~',
    ensures
        drawn(glyph_rows(c), sign_picture(c)),
{
    if c == ':' {
        reveal_strlit("...../..#../..#../...../..#../..#../.....");
        assert(drawn(glyph_rows(c), "...../..#../..#../...../..#../..#../....."@));
    } else     if c == '.' {
        reveal_strlit("...../...../...../...../...../.##../.##..");
        assert(drawn(glyph_rows(c), "...../...../...../...../...../.##../.##.."@));
    } else     if c == '%' {
        reveal_strlit("#...#/#..#./..#../.#.../#..##/#...#/.....");
        assert(drawn(glyph_rows(c), "#...#/#..#./..#../.#.../#..##/#...#/....."@));
    } else     if c == '-' {
        reveal_strlit("...../...../...../#####/...../...../.....");
        assert(drawn(glyph_rows(c), "...../...../...../#####/...../...../....."@));
    } else     if c == '/' {
        reveal_strlit("....#/...#./...#./..#../.#.../.#.../#....");
        assert(drawn(glyph_rows(c), "....#/...#./...#./..#../.#.../.#.../#...."@));
    } else     if c == '#' {
        reveal_strlit(".#.#./#####/.#.#./.#.#./#####/.#.#./.....");
        assert(drawn(glyph_rows(c), ".#.#./#####/.#.#./.#.#./#####/.#.#./....."@));
    } else     if c == '!' {
        reveal_strlit("..#../..#../..#../..#../..#../...../..#..");
        assert(drawn(glyph_rows(c), "..#../..#../..#../..#../..#../...../..#.."@));
    } else     if c == '"' {
        reveal_strlit(".#.#./.#.#./.#.#./...../...../...../.....");
        assert(drawn(glyph_rows(c), ".#.#./.#.#./.#.#./...../...../...../....."@));
    } else     if c == '$' {
        reveal_strlit("..#../.####/#.#../.###./..#.#/####./..#..");
        assert(drawn(glyph_rows(c), "..#../.####/#.#../.###./..#.#/####./..#.."@));
    } else     if c == '&' {
        reveal_strlit(".##../#..#./#.#../.#.../#.#.#/#..#./.##.#");
        assert(drawn(glyph_rows(c), ".##../#..#./#.#../.#.../#.#.#/#..#./.##.#"@));
    } else     if c == '\'' {
        reveal_strlit("..#../..#../.#.../...../...../...../.....");
        assert(drawn(glyph_rows(c), "..#../..#../.#.../...../...../...../....."@));
    } else     if c == '(' {
        reveal_strlit("...#./..#../.#.../.#.../.#.../..#../...#.");
        assert(drawn(glyph_rows(c), "...#./..#../.#.../.#.../.#.../..#../...#."@));
    } else     if c == ')' {
        reveal_strlit(".#.../..#../...#./...#./...#./..#../.#...");
        assert(drawn(glyph_rows(c), ".#.../..#../...#./...#./...#./..#../.#..."@));
    } else     if c == '*' {
        reveal_strlit("...../#.#.#/.###./#####/.###./#.#.#/.....");
        assert(drawn(glyph_rows(c), "...../#.#.#/.###./#####/.###./#.#.#/....."@));
    } else     if c == '+' {
        reveal_strlit("...../..#../..#../#####/..#../..#../.....");
        assert(drawn(glyph_rows(c), "...../..#../..#../#####/..#../..#../....."@));
    } else     if c == ',' {
        reveal_strlit("...../...../...../...../..#../..#../.#...");
        assert(drawn(glyph_rows(c), "...../...../...../...../..#../..#../.#..."@));
    } else     if c == ';' {
        reveal_strlit("...../..#../..#../...../..#../..#../.#...");
        assert(drawn(glyph_rows(c), "...../..#../..#../...../..#../..#../.#..."@));
    } else     if c == '<' {
        reveal_strlit("...#./..#../.#.../#..../.#.../..#../...#.");
        assert(drawn(glyph_rows(c), "...#./..#../.#.../#..../.#.../..#../...#."@));
    } else     if c == '=' {
        reveal_strlit("...../...../#####/...../#####/...../.....");
        assert(drawn(glyph_rows(c), "...../...../#####/...../#####/...../....."@));
    } else     if c == '>' {
        reveal_strlit(".#.../..#../...#./....#/...#./..#../.#...");
        assert(drawn(glyph_rows(c), ".#.../..#../...#./....#/...#./..#../.#..."@));
    } else     if c == '?' {
        reveal_strlit(".###./#...#/....#/..##./..#../...../..#..");
        assert(drawn(glyph_rows(c), ".###./#...#/....#/..##./..#../...../..#.."@));
    } else     if c == '@' {
        reveal_strlit(".###./#...#/#.###/#.#.#/#.###/#..../.###.");
        assert(drawn(glyph_rows(c), ".###./#...#/#.###/#.#.#/#.###/#..../.###."@));
    } else     if c == '[' {
        reveal_strlit(".###./.#.../.#.../.#.../.#.../.#.../.###.");
        assert(drawn(glyph_rows(c), ".###./.#.../.#.../.#.../.#.../.#.../.###."@));
    } else     if c == '\\' {
        reveal_strlit("#..../.#.../.#.../..#../...#./...#./....#");
        assert(drawn(glyph_rows(c), "#..../.#.../.#.../..#../...#./...#./....#"@));
    } else     if c == ']' {
        reveal_strlit(".###./...#./...#./...#./...#./...#./.###.");
        assert(drawn(glyph_rows(c), ".###./...#./...#./...#./...#./...#./.###."@));
    } else     if c == '^' {
        reveal_strlit("..#../.#.#./#...#/...../...../...../.....");
        assert(drawn(glyph_rows(c), "..#../.#.#./#...#/...../...../...../....."@));
    } else     if c == '_' {
        reveal_strlit("...../...../...../...../...../...../#####");
        assert(drawn(glyph_rows(c), "...../...../...../...../...../...../#####"@));
    } else     if c == '`' {
        reveal_strlit(".#.../..#../...#./...../...../...../.....");
        assert(drawn(glyph_rows(c), ".#.../..#../...#./...../...../...../....."@));
    } else     if c == '{' {
        reveal_strlit("...##/..#../..#../.#.../..#../..#../...##");
        assert(drawn(glyph_rows(c), "...##/..#../..#../.#.../..#../..#../...##"@));
    } else     if c == '|' {
        reveal_strlit("..#../..#../..#../..#../..#../..#../..#..");
        assert(drawn(glyph_rows(c), "..#../..#../..#../..#../..#../..#../..#.."@));
    } else     if c == '}' {
        reveal_strlit("##.../..#../..#../...#./..#../..#../##...");
        assert(drawn(glyph_rows(c), "##.../..#../..#../...#./..#../..#../##..."@));
    } else     if c == '~' {
        reveal_strlit("...../...../.#..#/#.##./...../...../.....");
        assert(drawn(glyph_rows(c), "...../...../.#..#/#.##./...../...../....."@));
    }
}

/// A space has no dots, and what is no printable ASCII character looks like a question mark with
/// a bar.
pub proof fn law_other_characters_look_the_same(c: char)
    requires
        c < '!' || c > '~',
    ensures
        c == ' ' ==> glyph_rows(c) == seq![0u8, 0, 0, 0, 0, 0, 0],
        c != ' ' ==> drawn(glyph_rows(c), unknown_picture()),
{
    reveal_strlit("#####/#...#/....#/..##./..#../...../..#..");
    assert(drawn(unknown_sign(), unknown_picture()));
}

} // verus!
