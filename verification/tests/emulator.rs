use rgb_workspace::terminal::emit::{cup_sequence, sgr_sequence};
use rgb_workspace::terminal::grid::{Cell, Colour, Grid};
use rgb_workspace::terminal::parser::{Parser, ParserState};

fn screen(cols: u16, rows: u16) -> (Parser, Grid) {
    (Parser::new(), Grid::new(cols, rows))
}

fn fed(cols: u16, rows: u16, bytes: &[u8]) -> (Parser, Grid) {
    let (mut parser, mut grid) = screen(cols, rows);
    parser.feed(&mut grid, bytes);
    (parser, grid)
}

fn row_text(grid: &Grid, row: u16) -> String {
    grid.row_chars(row).into_iter().collect()
}

fn all_colours() -> Vec<Colour> {
    vec![
        Colour::Default,
        Colour::Black,
        Colour::Red,
        Colour::Green,
        Colour::Yellow,
        Colour::Blue,
        Colour::Magenta,
        Colour::Cyan,
        Colour::White,
        Colour::BrightBlack,
        Colour::BrightRed,
        Colour::BrightGreen,
        Colour::BrightYellow,
        Colour::BrightBlue,
        Colour::BrightMagenta,
        Colour::BrightCyan,
        Colour::BrightWhite,
    ]
}

#[test]
fn fresh_grid_is_blank() {
    let grid = Grid::new(80, 24);
    assert_eq!(grid.cols(), 80);
    assert_eq!(grid.rows(), 24);
    assert_eq!(grid.cursor(), (0, 0));
    assert_eq!(grid.pen(), (Colour::Default, Colour::Default));
    for row in 0..24 {
        for col in 0..80 {
            assert_eq!(
                grid.cell(col, row),
                Cell { ch: ' ', fg: Colour::Default, bg: Colour::Default }
            );
        }
    }
}

#[test]
fn clear_screen_scenario() {
    let (_, grid) = fed(80, 24, b"ABC\x1B[2J\x1B[H");
    for row in 0..24 {
        for col in 0..80 {
            assert_eq!(grid.cell(col, row).ch, ' ');
        }
    }
    assert_eq!(grid.cursor(), (0, 0));
}

#[test]
fn sgr_colour_scenario() {
    let (_, grid) = fed(80, 24, b"\x1B[31mR\x1B[32mG\x1B[0mN");
    assert_eq!(grid.cell(0, 0), Cell { ch: 'R', fg: Colour::Red, bg: Colour::Default });
    assert_eq!(grid.cell(1, 0), Cell { ch: 'G', fg: Colour::Green, bg: Colour::Default });
    assert_eq!(grid.cell(2, 0), Cell { ch: 'N', fg: Colour::Default, bg: Colour::Default });
    assert_eq!(grid.cursor(), (3, 0));
}

#[test]
fn printing_advances_and_uses_the_pen() {
    let (_, grid) = fed(10, 3, b"\x1B[34;43mhi");
    assert_eq!(grid.cell(0, 0), Cell { ch: 'h', fg: Colour::Blue, bg: Colour::Yellow });
    assert_eq!(grid.cell(1, 0), Cell { ch: 'i', fg: Colour::Blue, bg: Colour::Yellow });
    assert_eq!(grid.cursor(), (2, 0));
    assert_eq!(grid.pen(), (Colour::Blue, Colour::Yellow));
}

#[test]
fn output_beyond_the_last_column_wraps() {
    let (_, grid) = fed(4, 3, b"abcde");
    assert_eq!(row_text(&grid, 0), "abcd");
    assert_eq!(row_text(&grid, 1), "e   ");
    assert_eq!(grid.cursor(), (1, 1));
}

#[test]
fn printing_the_last_column_moves_to_the_next_row_at_once() {
    let (_, grid) = fed(4, 3, b"abcd");
    assert_eq!(grid.cursor(), (0, 1));
}

#[test]
fn output_beyond_the_last_row_stays_in_the_last_row() {
    let (_, grid) = fed(2, 2, b"abcdef");
    assert_eq!(row_text(&grid, 0), "ab");
    assert_eq!(row_text(&grid, 1), "ef");
    assert_eq!(grid.cursor(), (0, 1));
}

#[test]
fn line_feed_at_the_last_row_saturates() {
    let (_, grid) = fed(5, 2, b"a\nb\nc\nd");
    assert_eq!(grid.cursor(), (1, 1));
    assert_eq!(row_text(&grid, 0), "a    ");
    assert_eq!(row_text(&grid, 1), "d    ");
}

#[test]
fn backspace_stops_at_the_first_column() {
    let (_, grid) = fed(5, 2, b"ab\x08\x08\x08");
    assert_eq!(grid.cursor(), (0, 0));
    let (_, grid) = fed(5, 2, b"ab\x08");
    assert_eq!(grid.cursor(), (1, 0));
}

#[test]
fn tab_moves_to_the_next_multiple_of_eight() {
    let (_, grid) = fed(80, 2, b"\t");
    assert_eq!(grid.cursor(), (8, 0));
    let (_, grid) = fed(80, 2, b"abc\t");
    assert_eq!(grid.cursor(), (8, 0));
    let (_, grid) = fed(80, 2, b"12345678\t");
    assert_eq!(grid.cursor(), (16, 0));
    let (_, grid) = fed(10, 2, b"123456789\t");
    assert_eq!(grid.cursor(), (9, 0));
    let (_, grid) = fed(20, 2, b"\t\t\t");
    assert_eq!(grid.cursor(), (19, 0));
}

#[test]
fn line_feed_returns_to_the_first_column() {
    let (_, grid) = fed(10, 3, b"abc\n");
    assert_eq!(grid.cursor(), (0, 1));
}

#[test]
fn carriage_return_keeps_the_row() {
    let (_, grid) = fed(10, 3, b"abc\n  x\r");
    assert_eq!(grid.cursor(), (0, 1));
}

#[test]
fn other_controls_are_ignored() {
    let (_, grid) = fed(10, 3, b"a\x00\x01\x07\x0B\x0C\x7Fb");
    assert_eq!(row_text(&grid, 0), "ab        ");
    assert_eq!(grid.cursor(), (2, 0));
}

#[test]
fn cup_is_one_based_and_clamped() {
    let (_, grid) = fed(80, 24, b"\x1B[5;10H");
    assert_eq!(grid.cursor(), (9, 4));
    let (_, grid) = fed(80, 24, b"\x1B[5;10f");
    assert_eq!(grid.cursor(), (9, 4));
    let (_, grid) = fed(80, 24, b"xyz\x1B[H");
    assert_eq!(grid.cursor(), (0, 0));
    let (_, grid) = fed(80, 24, b"\x1B[;7H");
    assert_eq!(grid.cursor(), (6, 0));
    let (_, grid) = fed(80, 24, b"\x1B[7H");
    assert_eq!(grid.cursor(), (0, 6));
    let (_, grid) = fed(80, 24, b"\x1B[0;0H");
    assert_eq!(grid.cursor(), (0, 0));
    let (_, grid) = fed(80, 24, b"\x1B[999;999H");
    assert_eq!(grid.cursor(), (79, 23));
    let (_, grid) = fed(80, 24, b"\x1B[99999999;99999999H");
    assert_eq!(grid.cursor(), (79, 23));
}

#[test]
fn cursor_moves_default_to_one_and_clamp() {
    let (_, grid) = fed(80, 24, b"\x1B[5;10H\x1B[A");
    assert_eq!(grid.cursor(), (9, 3));
    let (_, grid) = fed(80, 24, b"\x1B[5;10H\x1B[0A");
    assert_eq!(grid.cursor(), (9, 3));
    let (_, grid) = fed(80, 24, b"\x1B[5;10H\x1B[2B");
    assert_eq!(grid.cursor(), (9, 6));
    let (_, grid) = fed(80, 24, b"\x1B[5;10H\x1B[3C");
    assert_eq!(grid.cursor(), (12, 4));
    let (_, grid) = fed(80, 24, b"\x1B[5;10H\x1B[4D");
    assert_eq!(grid.cursor(), (5, 4));
    let (_, grid) = fed(80, 24, b"\x1B[5;10H\x1B[99A");
    assert_eq!(grid.cursor(), (9, 0));
    let (_, grid) = fed(80, 24, b"\x1B[5;10H\x1B[99B");
    assert_eq!(grid.cursor(), (9, 23));
    let (_, grid) = fed(80, 24, b"\x1B[5;10H\x1B[99C");
    assert_eq!(grid.cursor(), (79, 4));
    let (_, grid) = fed(80, 24, b"\x1B[5;10H\x1B[99D");
    assert_eq!(grid.cursor(), (0, 4));
}

#[test]
fn erase_display_modes() {
    let fill = b"abcd\x1B[2;1Hefgh\x1B[3;1Hijkl\x1B[2;2H";
    let mut text = fill.to_vec();
    text.extend_from_slice(b"\x1B[J");
    let (_, grid) = fed(4, 3, &text);
    assert_eq!(row_text(&grid, 0), "abcd");
    assert_eq!(row_text(&grid, 1), "e   ");
    assert_eq!(row_text(&grid, 2), "    ");
    assert_eq!(grid.cursor(), (1, 1));

    let mut text = fill.to_vec();
    text.extend_from_slice(b"\x1B[1J");
    let (_, grid) = fed(4, 3, &text);
    assert_eq!(row_text(&grid, 0), "    ");
    assert_eq!(row_text(&grid, 1), "  gh");
    assert_eq!(row_text(&grid, 2), "ijkl");
    assert_eq!(grid.cursor(), (1, 1));

    let mut text = fill.to_vec();
    text.extend_from_slice(b"\x1B[2J");
    let (_, grid) = fed(4, 3, &text);
    assert_eq!(row_text(&grid, 0), "    ");
    assert_eq!(row_text(&grid, 1), "    ");
    assert_eq!(row_text(&grid, 2), "    ");
    assert_eq!(grid.cursor(), (0, 0));

    let mut text = fill.to_vec();
    text.extend_from_slice(b"\x1B[3J");
    let (_, grid) = fed(4, 3, &text);
    assert_eq!(row_text(&grid, 0), "abcd");
    assert_eq!(row_text(&grid, 2), "ijkl");
    assert_eq!(grid.cursor(), (1, 1));
}

#[test]
fn erased_cells_have_default_colours() {
    let (_, grid) = fed(4, 2, b"\x1B[31;44mab\x1B[2J");
    assert_eq!(grid.cell(0, 0), Cell { ch: ' ', fg: Colour::Default, bg: Colour::Default });
    assert_eq!(grid.pen(), (Colour::Red, Colour::Blue));
}

#[test]
fn erase_line_modes() {
    let fill = b"abcd\x1B[2;1Hefgh\x1B[3;1Hijkl\x1B[2;2H";
    let mut text = fill.to_vec();
    text.extend_from_slice(b"\x1B[K");
    let (_, grid) = fed(4, 3, &text);
    assert_eq!(row_text(&grid, 0), "abcd");
    assert_eq!(row_text(&grid, 1), "e   ");
    assert_eq!(row_text(&grid, 2), "ijkl");

    let mut text = fill.to_vec();
    text.extend_from_slice(b"\x1B[1K");
    let (_, grid) = fed(4, 3, &text);
    assert_eq!(row_text(&grid, 1), "  gh");

    let mut text = fill.to_vec();
    text.extend_from_slice(b"\x1B[2K");
    let (_, grid) = fed(4, 3, &text);
    assert_eq!(row_text(&grid, 0), "abcd");
    assert_eq!(row_text(&grid, 1), "    ");
    assert_eq!(row_text(&grid, 2), "ijkl");
    assert_eq!(grid.cursor(), (1, 1));
}

#[test]
fn insert_lines_shifts_rows_down() {
    let (_, grid) = fed(2, 4, b"aa\x1B[2;1Hbb\x1B[3;1Hcc\x1B[4;1Hdd\x1B[2;1H\x1B[L");
    assert_eq!(row_text(&grid, 0), "aa");
    assert_eq!(row_text(&grid, 1), "  ");
    assert_eq!(row_text(&grid, 2), "bb");
    assert_eq!(row_text(&grid, 3), "cc");
    assert_eq!(grid.cursor(), (0, 1));
    let (_, grid) = fed(2, 4, b"aa\x1B[2;1Hbb\x1B[3;1Hcc\x1B[4;1Hdd\x1B[1;1H\x1B[2L");
    assert_eq!(row_text(&grid, 0), "  ");
    assert_eq!(row_text(&grid, 1), "  ");
    assert_eq!(row_text(&grid, 2), "aa");
    assert_eq!(row_text(&grid, 3), "bb");
    let (_, grid) = fed(2, 4, b"aa\x1B[2;1Hbb\x1B[3;1Hcc\x1B[4;1Hdd\x1B[3;1H\x1B[9L");
    assert_eq!(row_text(&grid, 0), "aa");
    assert_eq!(row_text(&grid, 1), "bb");
    assert_eq!(row_text(&grid, 2), "  ");
    assert_eq!(row_text(&grid, 3), "  ");
}

#[test]
fn delete_lines_shifts_rows_up() {
    let (_, grid) = fed(2, 4, b"aa\x1B[2;1Hbb\x1B[3;1Hcc\x1B[4;1Hdd\x1B[2;1H\x1B[M");
    assert_eq!(row_text(&grid, 0), "aa");
    assert_eq!(row_text(&grid, 1), "cc");
    assert_eq!(row_text(&grid, 2), "dd");
    assert_eq!(row_text(&grid, 3), "  ");
    let (_, grid) = fed(2, 4, b"aa\x1B[2;1Hbb\x1B[3;1Hcc\x1B[4;1Hdd\x1B[1;1H\x1B[3M");
    assert_eq!(row_text(&grid, 0), "dd");
    assert_eq!(row_text(&grid, 1), "  ");
    assert_eq!(row_text(&grid, 3), "  ");
    let (_, grid) = fed(2, 4, b"aa\x1B[2;1Hbb\x1B[3;1Hcc\x1B[4;1Hdd\x1B[4;1H\x1B[7M");
    assert_eq!(row_text(&grid, 2), "cc");
    assert_eq!(row_text(&grid, 3), "  ");
}

#[test]
fn sgr_selects_each_named_colour() {
    let expect = [
        (30, Colour::Black),
        (31, Colour::Red),
        (32, Colour::Green),
        (33, Colour::Yellow),
        (34, Colour::Blue),
        (35, Colour::Magenta),
        (36, Colour::Cyan),
        (37, Colour::White),
        (90, Colour::BrightBlack),
        (91, Colour::BrightRed),
        (92, Colour::BrightGreen),
        (93, Colour::BrightYellow),
        (94, Colour::BrightBlue),
        (95, Colour::BrightMagenta),
        (96, Colour::BrightCyan),
        (97, Colour::BrightWhite),
    ];
    for (code, colour) in expect {
        let mut grid = Grid::new(4, 2);
        grid.select_rendition(code);
        assert_eq!(grid.pen(), (colour, Colour::Default));
        let mut grid = Grid::new(4, 2);
        grid.select_rendition(code + 10);
        assert_eq!(grid.pen(), (Colour::Default, colour));
    }
}

#[test]
fn sgr_resets_and_ignores_unknown_codes() {
    let (_, grid) = fed(4, 2, b"\x1B[31;42m\x1B[m");
    assert_eq!(grid.pen(), (Colour::Default, Colour::Default));
    let (_, grid) = fed(4, 2, b"\x1B[31;42m\x1B[0m");
    assert_eq!(grid.pen(), (Colour::Default, Colour::Default));
    let (_, grid) = fed(4, 2, b"\x1B[31;42m\x1B[39m");
    assert_eq!(grid.pen(), (Colour::Default, Colour::Green));
    let (_, grid) = fed(4, 2, b"\x1B[31;42m\x1B[49m");
    assert_eq!(grid.pen(), (Colour::Red, Colour::Default));
    let (_, grid) = fed(4, 2, b"\x1B[31;42m\x1B[1;4;7;38;48;99;108;29m");
    assert_eq!(grid.pen(), (Colour::Red, Colour::Green));
    let (_, grid) = fed(4, 2, b"\x1B[31;0;44m");
    assert_eq!(grid.pen(), (Colour::Default, Colour::Blue));
}

#[test]
fn ris_resets_the_screen() {
    let (parser, grid) = fed(4, 2, b"\x1B[31;42mab\r\ncd\x1Bc");
    assert_eq!(row_text(&grid, 0), "    ");
    assert_eq!(row_text(&grid, 1), "    ");
    assert_eq!(grid.cursor(), (0, 0));
    assert_eq!(grid.pen(), (Colour::Default, Colour::Default));
    assert_eq!(parser.state(), ParserState::Ground);
}

#[test]
fn save_and_restore_cursor_are_consumed() {
    let (parser, grid) = fed(8, 2, b"ab\x1B7cd\x1B8e");
    assert_eq!(row_text(&grid, 0), "abcde   ");
    assert_eq!(parser.state(), ParserState::Ground);
}

#[test]
fn strings_are_consumed() {
    let (parser, grid) = fed(8, 2, b"\x1B]0;title\x07X");
    assert_eq!(row_text(&grid, 0), "X       ");
    assert_eq!(parser.state(), ParserState::Ground);
    let (parser, grid) = fed(8, 2, b"\x1B]0;title\x1B\\Y");
    assert_eq!(row_text(&grid, 0), "Y       ");
    assert_eq!(parser.state(), ParserState::Ground);
    let (parser, grid) = fed(8, 2, b"\x1BPq#0;2;0;0;0\x1B\\Z");
    assert_eq!(row_text(&grid, 0), "Z       ");
    assert_eq!(parser.state(), ParserState::Ground);
    let (parser, _) = fed(8, 2, b"\x1B]0;no end");
    assert_eq!(parser.state(), ParserState::OscString);
}

#[test]
fn unknown_sequences_are_consumed() {
    let (_, grid) = fed(8, 2, b"\x1B[?25lA\x1B[?1049hB\x1B[>0cC\x1B[5nD\x1B(BE\x1B[1 qF\x1B=G");
    assert_eq!(row_text(&grid, 0), "ABCDEFG ");
    assert_eq!(grid.cursor(), (7, 0));
    let (_, grid) = fed(8, 3, b"\x1B[?2;2Hx");
    assert_eq!(grid.cursor(), (1, 0));
}

#[test]
fn parser_states_follow_the_bytes() {
    let (mut parser, mut grid) = screen(8, 2);
    assert_eq!(parser.state(), ParserState::Ground);
    parser.advance(&mut grid, 0x1B);
    assert_eq!(parser.state(), ParserState::Escape);
    parser.advance(&mut grid, b'[');
    assert_eq!(parser.state(), ParserState::CsiEntry);
    parser.advance(&mut grid, b'1');
    assert_eq!(parser.state(), ParserState::CsiParam);
    parser.advance(&mut grid, b';');
    assert_eq!(parser.state(), ParserState::CsiParam);
    parser.advance(&mut grid, b'H');
    assert_eq!(parser.state(), ParserState::Ground);
    parser.advance(&mut grid, 0x1B);
    parser.advance(&mut grid, b']');
    assert_eq!(parser.state(), ParserState::OscString);
    parser.advance(&mut grid, 0x18);
    assert_eq!(parser.state(), ParserState::Ground);
}

#[test]
fn controls_inside_a_sequence_take_effect() {
    let (_, grid) = fed(8, 3, b"ab\x1B[\n2C");
    assert_eq!(grid.cursor(), (2, 1));
    let (parser, grid) = fed(8, 3, b"ab\x1B[2\x18C");
    assert_eq!(row_text(&grid, 0), "abC     ");
    assert_eq!(parser.state(), ParserState::Ground);
    let (_, grid) = fed(8, 3, b"ab\x1B[9\x1B[1C");
    assert_eq!(grid.cursor(), (3, 0));
}

#[test]
fn utf8_sequences_print_one_character() {
    let (_, grid) = fed(8, 2, "é€🦀x".as_bytes());
    assert_eq!(grid.cell(0, 0).ch, 'é');
    assert_eq!(grid.cell(1, 0).ch, '€');
    assert_eq!(grid.cell(2, 0).ch, '🦀');
    assert_eq!(grid.cell(3, 0).ch, 'x');
    assert_eq!(grid.cursor(), (4, 0));
}

#[test]
fn utf8_sequences_may_come_in_pieces() {
    let (mut parser, mut grid) = screen(8, 2);
    let bytes = "€".as_bytes();
    parser.feed(&mut grid, &bytes[..1]);
    parser.feed(&mut grid, &bytes[1..2]);
    assert_eq!(grid.cursor(), (0, 0));
    parser.feed(&mut grid, &bytes[2..]);
    assert_eq!(grid.cell(0, 0).ch, '€');
    assert_eq!(grid.cursor(), (1, 0));
}

#[test]
fn malformed_utf8_prints_nothing() {
    let (_, grid) = fed(8, 2, &[0xC0, 0x80, b'a']);
    assert_eq!(row_text(&grid, 0), "a       ");
    let (_, grid) = fed(8, 2, &[0xE0, 0x80, 0x80, b'b']);
    assert_eq!(row_text(&grid, 0), "b       ");
    let (_, grid) = fed(8, 2, &[0xED, 0xA0, 0x80, b'c']);
    assert_eq!(row_text(&grid, 0), "c       ");
    let (_, grid) = fed(8, 2, &[0xF4, 0x90, 0x80, 0x80, b'd']);
    assert_eq!(row_text(&grid, 0), "d       ");
    let (_, grid) = fed(8, 2, &[0x80, 0xBF, 0xFF, 0xF5, b'e']);
    assert_eq!(row_text(&grid, 0), "e       ");
    let (_, grid) = fed(8, 2, &[0xC3, b'f']);
    assert_eq!(row_text(&grid, 0), "f       ");
    let (_, grid) = fed(8, 2, &[0xE2, 0x82, 0x1B, b'[', b'C', b'g']);
    assert_eq!(row_text(&grid, 0), " g      ");
}

#[test]
fn cursor_stays_inside_for_any_bytes() {
    let mut seed: u32 = 12345;
    for (cols, rows) in [(1u16, 1u16), (2, 3), (7, 5), (80, 24)] {
        let (mut parser, mut grid) = screen(cols, rows);
        for _ in 0..20000 {
            seed = seed.wrapping_mul(1664525).wrapping_add(1013904223);
            let pick = (seed >> 24) as u8;
            let byte = match pick % 4 {
                0 => b"\x1B[]0123456789;?HJKLMABCDmfc\x07\x08\t\n\r"[(seed >> 8) as usize % 31],
                1 => pick,
                2 => 0x20 + pick % 0x5F,
                _ => (seed >> 16) as u8,
            };
            parser.advance(&mut grid, byte);
            let (col, row) = grid.cursor();
            assert!(col < cols && row < rows);
            assert_eq!((grid.cols(), grid.rows()), (cols, rows));
        }
    }
}

#[test]
fn resize_to_the_same_size_changes_nothing() {
    let (_, mut grid) = fed(6, 3, b"\x1B[35mabc\r\ndef\x1B[2;2H");
    let before: Vec<Vec<char>> = (0..3).map(|r| grid.row_chars(r)).collect();
    let colours: Vec<_> = (0..3).map(|r| grid.row_colours(r)).collect();
    grid.resize(6, 3);
    let after: Vec<Vec<char>> = (0..3).map(|r| grid.row_chars(r)).collect();
    let colours_after: Vec<_> = (0..3).map(|r| grid.row_colours(r)).collect();
    assert_eq!(before, after);
    assert_eq!(colours, colours_after);
    assert_eq!(grid.cursor(), (1, 1));
    assert_eq!(grid.pen(), (Colour::Magenta, Colour::Default));
}

#[test]
fn resize_keeps_the_overlap_and_clamps_the_cursor() {
    let (_, mut grid) = fed(4, 3, b"abcd\x1B[2;1Hefgh\x1B[3;1Hijk");
    assert_eq!(grid.cursor(), (3, 2));
    grid.resize(2, 2);
    assert_eq!((grid.cols(), grid.rows()), (2, 2));
    assert_eq!(row_text(&grid, 0), "ab");
    assert_eq!(row_text(&grid, 1), "ef");
    assert_eq!(grid.cursor(), (1, 1));
    grid.resize(5, 4);
    assert_eq!(row_text(&grid, 0), "ab   ");
    assert_eq!(row_text(&grid, 1), "ef   ");
    assert_eq!(row_text(&grid, 2), "     ");
    assert_eq!(row_text(&grid, 3), "     ");
    assert_eq!(grid.cursor(), (1, 1));
}

#[test]
fn emitted_sgr_sets_the_pen_from_any_state() {
    for fg in all_colours() {
        for bg in all_colours() {
            let (mut parser, mut grid) = fed(6, 2, b"\x1B[33;45mab\x1B]title");
            parser.feed(&mut grid, &sgr_sequence(fg, bg));
            assert_eq!(grid.pen(), (fg, bg));
            assert_eq!(parser.state(), ParserState::Ground);
            assert_eq!(grid.cursor(), (2, 0));
            assert_eq!(row_text(&grid, 0), "ab    ");
        }
    }
}

#[test]
fn emitted_sequences_have_the_expected_bytes() {
    assert_eq!(sgr_sequence(Colour::Red, Colour::Default), b"\x1B[31;49m".to_vec());
    assert_eq!(sgr_sequence(Colour::Default, Colour::BrightWhite), b"\x1B[39;107m".to_vec());
    assert_eq!(sgr_sequence(Colour::BrightCyan, Colour::Black), b"\x1B[96;40m".to_vec());
    assert_eq!(cup_sequence(0, 0), b"\x1B[1;1H".to_vec());
    assert_eq!(cup_sequence(9, 4), b"\x1B[5;10H".to_vec());
    assert_eq!(cup_sequence(65535, 99), b"\x1B[100;65536H".to_vec());
}

#[test]
fn emitted_cup_restores_the_cursor() {
    for (col, row) in [(0u16, 0u16), (79, 23), (10, 5), (0, 23), (79, 0)] {
        let (mut parser, mut grid) = fed(80, 24, b"hello\r\nworld\x1B[");
        parser.feed(&mut grid, &cup_sequence(col, row));
        assert_eq!(grid.cursor(), (col, row));
        assert_eq!(row_text(&grid, 0).trim_end(), "hello");
    }
    let (mut parser, mut grid) = screen(80, 24);
    parser.feed(&mut grid, &cup_sequence(200, 100));
    assert_eq!(grid.cursor(), (79, 23));
    parser.feed(&mut grid, &cup_sequence(65535, 65535));
    assert_eq!(grid.cursor(), (79, 23));
}

#[test]
fn write_row_overwrites_from_the_first_column() {
    let (_, mut grid) = fed(6, 2, b"abcdef\x1B[1;3H");
    grid.write_row(0, "xy", Colour::Black, Colour::White);
    assert_eq!(row_text(&grid, 0), "xycdef");
    assert_eq!(grid.cell(0, 0).fg, Colour::Black);
    assert_eq!(grid.cell(1, 0).bg, Colour::White);
    assert_eq!(grid.cell(2, 0).fg, Colour::Default);
    assert_eq!(grid.cursor(), (2, 0));
    grid.write_row(1, "0123456789", Colour::Red, Colour::Default);
    assert_eq!(row_text(&grid, 1), "012345");
}
