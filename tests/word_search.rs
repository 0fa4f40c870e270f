use word_search::grid::{CoordChar, Puzzle};
use word_search::samples::{FoundCrossedMas, FoundWord};

fn puzzle(rows: &[&str]) -> Puzzle {
    Puzzle::new(rows.iter().map(|r| r.chars().collect()).collect())
}

fn cc(x: usize, y: usize, ch: char) -> CoordChar {
    CoordChar { x, y, ch }
}

#[test]
fn single_word_in_top_row() {
    let p = puzzle(&["XMAS", "....", "....", "...."]);
    let r = p.scan();
    assert_eq!(r.words_found, 1);
    assert_eq!(p.solve(), 1);
    // Four anchors in each of the two straight axes, one in each diagonal,
    // each read both ways.
    assert_eq!(r.words_examined, 20);
    assert_eq!(r.crosses_found, 0);
    assert_eq!(r.crosses_examined, 16);
}

#[test]
fn single_word_windows_at_origin() {
    let p = puzzle(&["XMAS", "....", "....", "...."]);
    let v = p.view_vertical((0, 0)).unwrap();
    assert!(v.is_xmas());
    assert_eq!(v, FoundWord { x: cc(0, 0, 'X'), m: cc(0, 1, 'M'), a: cc(0, 2, 'A'), s: cc(0, 3, 'S') });
    assert!(!p.view_vertical_reverse((0, 0)).unwrap().is_xmas());
    assert!(!p.view_horizontal((0, 0)).unwrap().is_xmas());
    assert!(!p.view_diagonal_slash((0, 0)).unwrap().is_xmas());
    assert!(p.view_diagonal_backslash((0, 0)).is_none());
    assert!(p.view_diagonal_backslash_reverse((0, 0)).is_none());
}

#[test]
fn single_cross_centered() {
    let p = puzzle(&["M.M", ".A.", "S.S"]);
    let r = p.scan();
    assert_eq!(r.crosses_found, 1);
    assert_eq!(r.crosses_examined, 4);
    assert_eq!(r.words_found, 0);
    assert_eq!(r.words_examined, 0);
    let north = p.view_crossed_mas_north((0, 0)).unwrap();
    assert!(north.is_crossed_mas());
    assert_eq!(north.a, cc(1, 1, 'A'));
    assert!(!p.view_crossed_mas_east((0, 0)).unwrap().is_crossed_mas());
    assert!(!p.view_crossed_mas_south((0, 0)).unwrap().is_crossed_mas());
    assert!(!p.view_crossed_mas_west((0, 0)).unwrap().is_crossed_mas());
}

#[test]
fn blank_grid_has_no_matches() {
    let p = puzzle(&["...", "...", "..."]);
    let r = p.scan();
    assert_eq!(r.words_found, 0);
    assert_eq!(r.crosses_found, 0);
    assert_eq!(r.words_examined, 0);
    assert_eq!(r.crosses_examined, 4);
    assert_eq!(p.solve(), 0);
}

#[test]
fn empty_grid() {
    let p = Puzzle::new(Vec::new());
    let r = p.scan();
    assert_eq!(r.words_found, 0);
    assert_eq!(r.words_examined, 0);
    assert_eq!(r.crosses_found, 0);
    assert_eq!(r.crosses_examined, 0);
    assert_eq!(p.access((0, 0)), None);
}

const SAMPLE: [&str; 10] = [
    "MMMSXXMASM",
    "MSAMXMSMSA",
    "AMXSXMAAMM",
    "MSAMASMSMX",
    "XMASAMXAMM",
    "XXAMMXXAMA",
    "SMSMSASXSS",
    "SAXAMASAAA",
    "MAMMMXMMMM",
    "MXMXAXMASX",
];

#[test]
fn ten_by_ten_sample() {
    let p = puzzle(&SAMPLE);
    let r = p.scan();
    assert_eq!(r.words_found, 18);
    assert_eq!(r.crosses_found, 9);
    // Straight axes: 7 anchors by 10 lines each; diagonals: 7 by 7; all read both ways.
    assert_eq!(r.words_examined, 2 * (70 + 70 + 49 + 49));
    assert_eq!(r.crosses_examined, 4 * 64);
}

#[test]
fn scanning_twice_gives_same_counts() {
    let p = puzzle(&SAMPLE);
    let first = p.scan();
    let second = p.scan();
    assert_eq!(first, second);
    assert_eq!(puzzle(&SAMPLE).scan(), first);
}

#[test]
fn found_never_exceeds_examined() {
    for rows in [&SAMPLE[..], &["XMAS", "MMMM", "AAAA", "SSSS"][..], &["XXXX", "XXXX", "XXXX", "XXXX"][..]] {
        let r = puzzle(rows).scan();
        assert!(r.words_found <= r.words_examined);
        assert!(r.crosses_found <= r.crosses_examined);
    }
}

#[test]
fn word_crossing_edge_not_counted() {
    // "XMA" at the end of a row with "S" wrapping onto the next row.
    let p = puzzle(&[".XMA", "S...", "....", "...."]);
    assert_eq!(p.solve(), 0);
    assert!(p.view_vertical((0, 1)).is_none());
    assert!(p.view_horizontal((1, 0)).is_none());
    assert!(p.view_diagonal_slash((1, 1)).is_none());
    assert!(p.view_diagonal_backslash((3, 3)).is_none());
    assert!(p.view_crossed_mas_north((2, 2)).is_none());
    assert_eq!(p.access((4, 0)), None);
    assert_eq!(p.access((0, 4)), None);
    assert_eq!(p.access((0, 1)), Some(cc(0, 1, 'X')));
}

#[test]
fn reverse_reading_not_spurious() {
    let p = puzzle(&["XMAS", "....", "....", "...."]);
    let fwd = p.view_vertical((0, 0)).unwrap();
    let rev = p.view_vertical_reverse((0, 0)).unwrap();
    assert!(fwd.is_xmas());
    assert!(!rev.is_xmas());
    assert_eq!(rev.x, cc(0, 3, 'S'));
    assert_ne!(fwd, rev);

    let q = puzzle(&["SAMX", "....", "....", "...."]);
    assert!(q.view_vertical_reverse((0, 0)).unwrap().is_xmas());
    assert!(!q.view_vertical((0, 0)).unwrap().is_xmas());
    assert_eq!(q.solve(), 1);
}

#[test]
fn every_direction_matches() {
    // Column 0 read downward, and each diagonal.
    let down = puzzle(&["X...", "M...", "A...", "S..."]);
    assert!(down.view_horizontal((0, 0)).unwrap().is_xmas());
    assert_eq!(down.solve(), 1);
    let up = puzzle(&["S...", "A...", "M...", "X..."]);
    assert!(up.view_horizontal_reverse((0, 0)).unwrap().is_xmas());
    assert_eq!(up.solve(), 1);
    let diag = puzzle(&["X...", ".M..", "..A.", "...S"]);
    assert!(diag.view_diagonal_slash((0, 0)).unwrap().is_xmas());
    assert_eq!(diag.solve(), 1);
    let diag_rev = puzzle(&["S...", ".A..", "..M.", "...X"]);
    assert!(diag_rev.view_diagonal_slash_reverse((0, 0)).unwrap().is_xmas());
    let anti = puzzle(&["...X", "..M.", ".A..", "S..."]);
    let w = anti.view_diagonal_backslash((0, 3)).unwrap();
    assert!(w.is_xmas());
    assert_eq!(w.s, cc(3, 0, 'S'));
    assert_eq!(anti.solve(), 1);
    let anti_rev = puzzle(&["...S", "..A.", ".M..", "X..."]);
    assert!(anti_rev.view_diagonal_backslash_reverse((0, 3)).unwrap().is_xmas());
}

#[test]
fn every_cross_orientation_matches() {
    let east = puzzle(&["M.S", ".A.", "M.S"]);
    assert!(east.view_crossed_mas_east((0, 0)).unwrap().is_crossed_mas());
    let south = puzzle(&["S.S", ".A.", "M.M"]);
    assert!(south.view_crossed_mas_south((0, 0)).unwrap().is_crossed_mas());
    let west = puzzle(&["S.M", ".A.", "S.M"]);
    let x = west.view_crossed_mas_west((0, 0)).unwrap();
    assert!(x.is_crossed_mas());
    assert_eq!(
        x,
        FoundCrossedMas {
            m_up: cc(0, 2, 'M'),
            s_up: cc(0, 0, 'S'),
            a: cc(1, 1, 'A'),
            m_down: cc(2, 2, 'M'),
            s_down: cc(2, 0, 'S'),
        }
    );
    for p in [east, south, west] {
        let r = p.scan();
        assert_eq!(r.crosses_found, 1);
        assert_eq!(r.crosses_examined, 4);
    }
}

#[test]
fn same_cells_give_four_distinct_crosses() {
    let p = puzzle(&["M.M", ".A.", "S.S"]);
    let all = [
        p.view_crossed_mas_north((0, 0)).unwrap(),
        p.view_crossed_mas_east((0, 0)).unwrap(),
        p.view_crossed_mas_south((0, 0)).unwrap(),
        p.view_crossed_mas_west((0, 0)).unwrap(),
    ];
    for i in 0..4 {
        for j in 0..4 {
            assert_eq!(all[i] == all[j], i == j);
        }
    }
}
