use prettier_print::frame::frame;
use prettier_print::game_of_life::{Board, Cell};
use prettier_print::sparkles::CenteredDebugString;

fn grid(s: &str, terminal_size: (usize, usize)) -> Vec<char> {
    let mut debug_string_grid = CenteredDebugString::new(s, terminal_size);
    (0..debug_string_grid.len())
        .map(|_| debug_string_grid.next().unwrap())
        .collect()
}

#[test]
fn longest_line() {
    assert_eq!(CenteredDebugString::longest_line(""), 0);
    assert_eq!(CenteredDebugString::longest_line("\n"), 0);
    assert_eq!(CenteredDebugString::longest_line("1\n"), 1);
    assert_eq!(CenteredDebugString::longest_line("\n1"), 1);
}

#[test]
fn longest_line_among_several() {
    assert_eq!(CenteredDebugString::longest_line("ab\nabcd\nabc"), 4);
    assert_eq!(CenteredDebugString::longest_line("ab\nabcd\nabcdef"), 6);
}

#[test]
fn margin_length_halves_the_room_left() {
    assert_eq!(CenteredDebugString::margin_length(10, 3), 3);
    assert_eq!(CenteredDebugString::margin_length(3, 10), 0);
    assert_eq!(CenteredDebugString::margin_length(4, 4), 0);
}

#[test]
fn debug_string_grid() {
    let empty: &[char] = &[];
    assert_eq!(grid("", (0, 0)), empty);
    assert_eq!(grid("a", (0, 0)), empty);
    assert_eq!(grid("a", (1, 1)), &['a']);
    assert_eq!(grid("a", (2, 3)), &[' ', ' ', 'a', ' ', ' ', ' ']);
    assert_eq!(grid("a", (3, 2)), &[' ', 'a', ' ', ' ', ' ', ' ']);
    assert_eq!(grid("a", (3, 3)), &[' ', ' ', ' ', ' ', 'a', ' ', ' ', ' ', ' ']);
    assert_eq!(
        grid("a\nb", (4, 3)),
        &[' ', 'a', ' ', ' ', ' ', 'b', ' ', ' ', ' ', ' ', ' ', ' ']
    );
}

#[test]
fn grid_yields_exactly_its_cells_then_stops() {
    for (w, h) in [(0usize, 0usize), (1, 1), (3, 2), (5, 4), (4, 0)] {
        let mut layout = CenteredDebugString::new("ab\ncd\n", (w, h));
        assert_eq!(layout.len(), w * h);
        for _ in 0..w * h {
            assert!(layout.next().is_some());
        }
        assert_eq!(layout.next(), None);
    }
}

#[test]
fn long_line_runs_into_next_row_and_is_cut_off() {
    assert_eq!(grid("abcde", (3, 2)), &['a', 'b', 'c', 'd', 'e', ' ']);
    assert_eq!(grid("abcdefgh", (2, 2)), &['a', 'b', 'c', 'd']);
}

#[test]
fn frame_combines_text_board_and_row_ends() {
    let board = Board::new_with_array(vec![Cell::Live, Cell::Dead, Cell::Dead, Cell::Live], 2, 2);
    let cells = frame("a", &board);
    let glyphs: Vec<char> = cells.iter().map(|c| c.glyph).collect();
    let live: Vec<bool> = cells.iter().map(|c| c.live).collect();
    let breaks: Vec<bool> = cells.iter().map(|c| c.line_break).collect();
    assert_eq!(glyphs, vec!['a', ' ', ' ', ' ']);
    assert_eq!(live, vec![true, false, false, true]);
    assert_eq!(breaks, vec![false, true, false, true]);
}
