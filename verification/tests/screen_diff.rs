use rustcode_tui::screen_diff::{blank_grid, diff_buffers, is_put, DrawCommand, Grid, Rect};

fn rect(x: u16, y: u16, width: u16, height: u16) -> Rect {
    Rect { x, y, width, height }
}

/// Writes `s` into row `y` of `g` from column `x`, one character per cell.
fn set_string(g: &mut Grid, x: usize, y: usize, s: &str) {
    for (k, ch) in s.chars().enumerate() {
        let i = y * g.width as usize + x + k;
        g.cells[i].symbol = ch.to_string();
    }
}

#[test]
fn diff_buffers_empty_prev() {
    let viewport = rect(0, 5, 10, 3);
    let prev = blank_grid(0, 0);
    let mut next = blank_grid(10, 3);
    set_string(&mut next, 0, 0, "hello");

    let commands = diff_buffers(&prev, &next, viewport);
    // Should have Put commands for the changed cells.
    let put_count = commands.iter().filter(|c| is_put(c)).count();
    assert!(put_count > 0, "expected Put commands for new content");
}

#[test]
fn diff_buffers_no_change() {
    let viewport = rect(0, 0, 5, 2);
    let buf = blank_grid(5, 2);

    let commands = diff_buffers(&buf, &buf, viewport);
    let put_count = commands.iter().filter(|c| is_put(c)).count();
    assert_eq!(put_count, 0, "identical buffers should produce no Put commands");
}

#[test]
fn diff_buffers_viewport_offset() {
    let viewport = rect(0, 10, 5, 1);
    let prev = blank_grid(0, 0);
    let mut next = blank_grid(5, 1);
    set_string(&mut next, 0, 0, "X");

    let commands = diff_buffers(&prev, &next, viewport);
    // The Put command should have y = 10 (viewport offset).
    let put = commands.iter().find(|c| is_put(c));
    assert!(put.is_some());
    if let Some(DrawCommand::Put { y, .. }) = put {
        assert_eq!(*y, 10, "Put y should include viewport offset");
    }
}

#[test]
fn rows_are_cleared_after_their_content() {
    let prev = blank_grid(0, 0);
    let mut next = blank_grid(6, 2);
    set_string(&mut next, 0, 0, "ab");
    let commands = diff_buffers(&prev, &next, rect(3, 4, 6, 2));
    let clears: Vec<(u16, u16)> = commands
        .iter()
        .filter_map(|c| match c {
            DrawCommand::ClearToEnd { x, y, .. } => Some((*x, *y)),
            DrawCommand::Put { .. } => None,
        })
        .collect();
    // Row 0 ends after "ab" (column 1); the blank row 1 is cleared after column 0.
    assert_eq!(clears, vec![(3 + 2, 4), (3 + 1, 5)]);
    let puts: Vec<(u16, u16, String)> = commands
        .iter()
        .filter_map(|c| match c {
            DrawCommand::Put { x, y, cell } => Some((*x, *y, cell.symbol.clone())),
            DrawCommand::ClearToEnd { .. } => None,
        })
        .collect();
    // Only cells within each row's content are put.
    assert_eq!(puts, vec![(3, 4, "a".to_string()), (4, 4, "b".to_string()), (3, 5, " ".to_string())]);
}

#[test]
fn only_changed_cells_are_put() {
    let mut prev = blank_grid(4, 1);
    set_string(&mut prev, 0, 0, "abcd");
    let mut next = blank_grid(4, 1);
    set_string(&mut next, 0, 0, "abXd");
    let commands = diff_buffers(&prev, &next, rect(0, 0, 4, 1));
    assert_eq!(commands.len(), 1);
    match &commands[0] {
        DrawCommand::Put { x, y, cell } => {
            assert_eq!((*x, *y), (2, 0));
            assert_eq!(cell.symbol, "X");
        }
        DrawCommand::ClearToEnd { .. } => panic!("expected a put"),
    }
}

#[test]
fn wide_symbols_cover_the_next_cell() {
    let prev = blank_grid(0, 0);
    let mut next = blank_grid(4, 1);
    next.cells[0].symbol = "中".to_string();
    next.cells[2].symbol = "x".to_string();
    let commands = diff_buffers(&prev, &next, rect(0, 0, 4, 1));
    let xs: Vec<u16> = commands
        .iter()
        .filter_map(|c| match c {
            DrawCommand::Put { x, .. } => Some(*x),
            DrawCommand::ClearToEnd { .. } => None,
        })
        .collect();
    // The cell under the wide symbol's second column is not drawn.
    assert_eq!(xs, vec![0, 2]);
}

#[test]
fn empty_frames_need_nothing() {
    let prev = blank_grid(3, 3);
    let next = blank_grid(0, 5);
    assert!(diff_buffers(&prev, &next, rect(0, 0, 0, 5)).is_empty());
}
