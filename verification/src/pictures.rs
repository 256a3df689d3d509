//! What the characters on the display look like.

use vstd::prelude::*;

use crate::framebuffer::{bit, columns};

verus! {

/// The picture of a character, row by row from the top; a character without one has
/// a question mark in its place.
pub open spec fn picture(character: char) -> Seq<Seq<char>> {
    match character {
        ' ' => seq![
            "....."@,
            "....."@,
            "....."@,
            "....."@,
            "....."@,
            "....."@,
            "....."@,
        ],
        '0' => seq![
            ".###."@,
            "#...#"@,
            "#..##"@,
            "#.#.#"@,
            "##..#"@,
            "#...#"@,
            ".###."@,
        ],
        '1' => seq![
            "..#.."@,
            ".##.."@,
            "..#.."@,
            "..#.."@,
            "..#.."@,
            "..#.."@,
            ".###."@,
        ],
        '2' => seq![
            ".###."@,
            "#...#"@,
            "....#"@,
            "...#."@,
            "..#.."@,
            ".#..."@,
            "#####"@,
        ],
        '3' => seq![
            "#####"@,
            "...#."@,
            "..#.."@,
            "...#."@,
            "....#"@,
            "#...#"@,
            ".###."@,
        ],
        '4' => seq![
            "...#."@,
            "..##."@,
            ".#.#."@,
            "#..#."@,
            "#####"@,
            "...#."@,
            "...#."@,
        ],
        '5' => seq![
            "#####"@,
            "#...."@,
            "####."@,
            "....#"@,
            "....#"@,
            "#...#"@,
            ".###."@,
        ],
        '6' => seq![
            "..##."@,
            ".#..."@,
            "#...."@,
            "####."@,
            "#...#"@,
            "#...#"@,
            ".###."@,
        ],
        '7' => seq![
            "#####"@,
            "....#"@,
            "...#."@,
            "..#.."@,
            ".#..."@,
            ".#..."@,
            ".#..."@,
        ],
        '8' => seq![
            ".###."@,
            "#...#"@,
            "#...#"@,
            ".###."@,
            "#...#"@,
            "#...#"@,
            ".###."@,
        ],
        '9' => seq![
            ".###."@,
            "#...#"@,
            "#...#"@,
            ".####"@,
            "....#"@,
            "...#."@,
            ".##.."@,
        ],
        'A' => seq![
            ".###."@,
            "#...#"@,
            "#...#"@,
            "#...#"@,
            "#####"@,
            "#...#"@,
            "#...#"@,
        ],
        'B' => seq![
            "####."@,
            "#...#"@,
            "#...#"@,
            "####."@,
            "#...#"@,
            "#...#"@,
            "####."@,
        ],
        'C' => seq![
            ".###."@,
            "#...#"@,
            "#...."@,
            "#...."@,
            "#...."@,
            "#...#"@,
            ".###."@,
        ],
        'D' => seq![
            "###.."@,
            "#..#."@,
            "#...#"@,
            "#...#"@,
            "#...#"@,
            "#..#."@,
            "###.."@,
        ],
        'E' => seq![
            "#####"@,
            "#...."@,
            "#...."@,
            "####."@,
            "#...."@,
            "#...."@,
            "#####"@,
        ],
        'F' => seq![
            "#####"@,
            "#...."@,
            "#...."@,
            "####."@,
            "#...."@,
            "#...."@,
            "#...."@,
        ],
        'G' => seq![
            ".###."@,
            "#...#"@,
            "#...."@,
            "#.###"@,
            "#...#"@,
            "#...#"@,
            ".####"@,
        ],
        'H' => seq![
            "#...#"@,
            "#...#"@,
            "#...#"@,
            "#####"@,
            "#...#"@,
            "#...#"@,
            "#...#"@,
        ],
        'I' => seq![
            ".###."@,
            "..#.."@,
            "..#.."@,
            "..#.."@,
            "..#.."@,
            "..#.."@,
            ".###."@,
        ],
        'J' => seq![
            "..###"@,
            "...#."@,
            "...#."@,
            "...#."@,
            "...#."@,
            "#..#."@,
            ".##.."@,
        ],
        'K' => seq![
            "#...#"@,
            "#..#."@,
            "#.#.."@,
            "##..."@,
            "#.#.."@,
            "#..#."@,
            "#...#"@,
        ],
        'L' => seq![
            "#...."@,
            "#...."@,
            "#...."@,
            "#...."@,
            "#...."@,
            "#...."@,
            "#####"@,
        ],
        'M' => seq![
            "#...#"@,
            "##.##"@,
            "#.#.#"@,
            "#.#.#"@,
            "#...#"@,
            "#...#"@,
            "#...#"@,
        ],
        'N' => seq![
            "#...#"@,
            "#...#"@,
            "##..#"@,
            "#.#.#"@,
            "#..##"@,
            "#...#"@,
            "#...#"@,
        ],
        'O' => seq![
            ".###."@,
            "#...#"@,
            "#...#"@,
            "#...#"@,
            "#...#"@,
            "#...#"@,
            ".###."@,
        ],
        'P' => seq![
            "####."@,
            "#...#"@,
            "#...#"@,
            "####."@,
            "#...."@,
            "#...."@,
            "#...."@,
        ],
        'Q' => seq![
            ".###."@,
            "#...#"@,
            "#...#"@,
            "#...#"@,
            "#.#.#"@,
            "#..#."@,
            ".##.#"@,
        ],
        'R' => seq![
            "####."@,
            "#...#"@,
            "#...#"@,
            "####."@,
            "#.#.."@,
            "#..#."@,
            "#...#"@,
        ],
        'S' => seq![
            ".####"@,
            "#...."@,
            "#...."@,
            ".###."@,
            "....#"@,
            "....#"@,
            "####."@,
        ],
        'T' => seq![
            "#####"@,
            "..#.."@,
            "..#.."@,
            "..#.."@,
            "..#.."@,
            "..#.."@,
            "..#.."@,
        ],
        'U' => seq![
            "#...#"@,
            "#...#"@,
            "#...#"@,
            "#...#"@,
            "#...#"@,
            "#...#"@,
            ".###."@,
        ],
        'V' => seq![
            "#...#"@,
            "#...#"@,
            "#...#"@,
            "#...#"@,
            "#...#"@,
            ".#.#."@,
            "..#.."@,
        ],
        'W' => seq![
            "#...#"@,
            "#...#"@,
            "#...#"@,
            "#.#.#"@,
            "#.#.#"@,
            "#.#.#"@,
            ".#.#."@,
        ],
        'X' => seq![
            "#...#"@,
            "#...#"@,
            ".#.#."@,
            "..#.."@,
            ".#.#."@,
            "#...#"@,
            "#...#"@,
        ],
        'Y' => seq![
            "#...#"@,
            "#...#"@,
            "#...#"@,
            ".#.#."@,
            "..#.."@,
            "..#.."@,
            "..#.."@,
        ],
        'Z' => seq![
            "#####"@,
            "....#"@,
            "...#."@,
            "..#.."@,
            ".#..."@,
            "#...."@,
            "#####"@,
        ],
        '.' => seq![
            "....."@,
            "....."@,
            "....."@,
            "....."@,
            "....."@,
            ".##.."@,
            ".##.."@,
        ],
        ':' => seq![
            "....."@,
            ".##.."@,
            ".##.."@,
            "....."@,
            ".##.."@,
            ".##.."@,
            "....."@,
        ],
        '/' => seq![
            "....."@,
            "....#"@,
            "...#."@,
            "..#.."@,
            ".#..."@,
            "#...."@,
            "....."@,
        ],
        '%' => seq![
            "##..."@,
            "##..#"@,
            "...#."@,
            "..#.."@,
            ".#..."@,
            "#..##"@,
            "...##"@,
        ],
        '-' => seq![
            "....."@,
            "....."@,
            "....."@,
            "#####"@,
            "....."@,
            "....."@,
            "....."@,
        ],
        '_' => seq![
            "....."@,
            "....."@,
            "....."@,
            "....."@,
            "....."@,
            "....."@,
            "#####"@,
        ],
        _ => seq![
            ".###."@,
            "#...#"@,
            "....#"@,
            "...#."@,
            "..#.."@,
            "....."@,
            "..#.."@,
        ],
    }
}

/// One where a place of a picture is lit, and zero where it is dark.
spec fn dot(rows: Seq<Seq<char>>, row: int, column: int) -> int {
    if rows[row][column] == '#' {
        1
    } else {
        0
    }
}

/// A column of a picture as a number, with the top row lowest.
spec fn column_of(rows: Seq<Seq<char>>, column: int) -> int {
    dot(rows, 0, column) + 2 * dot(rows, 1, column) + 4 * dot(rows, 2, column) + 8 * dot(
        rows,
        3,
        column,
    ) + 16 * dot(rows, 4, column) + 32 * dot(rows, 5, column) + 64 * dot(rows, 6, column)
}

proof fn lemma_bits(byte: u8)
    ensures
        bit(byte, 0) <==> byte % 2 == 1,
        bit(byte, 1) <==> (byte / 2) % 2 == 1,
        bit(byte, 2) <==> (byte / 4) % 2 == 1,
        bit(byte, 3) <==> (byte / 8) % 2 == 1,
        bit(byte, 4) <==> (byte / 16) % 2 == 1,
        bit(byte, 5) <==> (byte / 32) % 2 == 1,
        bit(byte, 6) <==> (byte / 64) % 2 == 1,
{
    assert(byte & (1u8 << 0u8) != 0 <==> byte % 2 == 1) by (bit_vector);
    assert(byte & (1u8 << 1u8) != 0 <==> (byte / 2) % 2 == 1) by (bit_vector);
    assert(byte & (1u8 << 2u8) != 0 <==> (byte / 4) % 2 == 1) by (bit_vector);
    assert(byte & (1u8 << 3u8) != 0 <==> (byte / 8) % 2 == 1) by (bit_vector);
    assert(byte & (1u8 << 4u8) != 0 <==> (byte / 16) % 2 == 1) by (bit_vector);
    assert(byte & (1u8 << 5u8) != 0 <==> (byte / 32) % 2 == 1) by (bit_vector);
    assert(byte & (1u8 << 6u8) != 0 <==> (byte / 64) % 2 == 1) by (bit_vector);
}

proof fn lemma_columns(character: char)
    ensures
        columns(character)[0] == column_of(picture(character), 0),
        columns(character)[1] == column_of(picture(character), 1),
        columns(character)[2] == column_of(picture(character), 2),
        columns(character)[3] == column_of(picture(character), 3),
        columns(character)[4] == column_of(picture(character), 4),
{
    reveal_strlit("#####");
    reveal_strlit("####.");
    reveal_strlit("###..");
    reveal_strlit("##.##");
    reveal_strlit("##..#");
    reveal_strlit("##...");
    reveal_strlit("#.###");
    reveal_strlit("#.#.#");
    reveal_strlit("#.#..");
    reveal_strlit("#..##");
    reveal_strlit("#..#.");
    reveal_strlit("#...#");
    reveal_strlit("#....");
    reveal_strlit(".####");
    reveal_strlit(".###.");
    reveal_strlit(".##.#");
    reveal_strlit(".##..");
    reveal_strlit(".#.#.");
    reveal_strlit(".#...");
    reveal_strlit("..###");
    reveal_strlit("..##.");
    reveal_strlit("..#..");
    reveal_strlit("...##");
    reveal_strlit("...#.");
    reveal_strlit("....#");
    reveal_strlit(".....");
}

/// Every character is lit where its picture has a mark, and dark elsewhere.
pub proof fn characters_look_like_their_pictures(character: char, column: int, row: int)
    requires
        0 <= column < 5,
        0 <= row < 7,
    ensures
        bit(columns(character)[column], row as u8) <==> picture(character)[row][column] == '#',
{
    lemma_columns(character);
    lemma_bits(columns(character)[column]);
    let rows = picture(character);
    let byte = columns(character)[column];
    assert(byte == column_of(rows, column));
    assert(row == 0 || row == 1 || row == 2 || row == 3 || row == 4 || row == 5 || row == 6);
}

} // verus!
