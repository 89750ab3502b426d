use water_render::ansi::Rgb;
use water_render::renderer::Renderer;

const BLOCK_UTF8: [u8; 3] = [0xe2, 0x96, 0x88];

/// The bytes that repaint the cell in `col`, `row` with `c`, with colour
/// output on (`colored`) or off.
fn cell(col: u16, row: u16, c: Rgb, colored: bool) -> Vec<u8> {
    let mut out = format!("\x1b[{};{}H", row + 1, col + 1).into_bytes();
    if colored {
        out.extend_from_slice(format!("\x1b[38;2;{};{};{}m", c.0, c.1, c.2).as_bytes());
    } else {
        out.extend_from_slice(b"\x1b[m");
    }
    out.extend_from_slice(&BLOCK_UTF8);
    out
}

fn either(cells: &[(u16, u16, Rgb)]) -> (Vec<u8>, Vec<u8>) {
    let mut on = Vec::new();
    let mut off = Vec::new();
    for &(col, row, c) in cells {
        on.extend(cell(col, row, c, true));
        off.extend(cell(col, row, c, false));
    }
    (on, off)
}

fn assert_output(r: &Renderer, cells: &[(u16, u16, Rgb)]) {
    let (on, off) = either(cells);
    let got = r.output().to_vec();
    assert!(got == on || got == off, "unexpected output {:?}", got);
}

#[test]
fn new_renderer_has_size_and_no_output() {
    let r = Renderer::new(3, 2);
    assert_eq!(r.width(), 3);
    assert_eq!(r.height(), 2);
    assert!(r.output().is_empty());
}

#[test]
fn black_frame_on_fresh_renderer_writes_nothing() {
    let mut r = Renderer::new(4, 3);
    r.draw(&vec![(0, 0, 0); 12]).unwrap();
    assert!(r.output().is_empty());
}

#[test]
fn changed_cells_are_repainted_column_by_column() {
    // 2 columns, 3 rows: cell index = column * 3 + row.
    let mut r = Renderer::new(2, 3);
    let mut frame = vec![(0, 0, 0); 6];
    frame[1] = (10, 20, 30); // column 0, row 1
    frame[3] = (255, 0, 7); // column 1, row 0
    r.draw(&frame).unwrap();
    assert_output(&r, &[(0, 1, (10, 20, 30)), (1, 0, (255, 0, 7))]);
}

#[test]
fn exact_bytes_for_one_cell() {
    let mut r = Renderer::new(1, 1);
    r.draw(&vec![(1, 2, 3)]).unwrap();
    let on: Vec<u8> = b"\x1b[1;1H\x1b[38;2;1;2;3m\xe2\x96\x88".to_vec();
    let off: Vec<u8> = b"\x1b[1;1H\x1b[m\xe2\x96\x88".to_vec();
    let got = r.output().to_vec();
    assert!(got == on || got == off);
}

#[test]
fn multi_digit_coordinates() {
    let mut r = Renderer::new(123, 10);
    let mut frame = vec![(0, 0, 0); 1230];
    frame[122 * 10 + 9] = (100, 200, 250);
    r.draw(&frame).unwrap();
    let got = r.output().to_vec();
    assert!(got.starts_with(b"\x1b[10;123H"));
    assert_output(&r, &[(122, 9, (100, 200, 250))]);
}

#[test]
fn redrawing_the_same_frame_writes_nothing() {
    let mut r = Renderer::new(3, 3);
    let frame: Vec<Rgb> = (0..9u8).map(|i| (i, i * 2, 255 - i)).collect();
    r.draw(&frame).unwrap();
    assert!(!r.output().is_empty());
    r.draw(&frame).unwrap();
    assert!(r.output().is_empty());
}

#[test]
fn only_the_difference_to_the_last_frame_is_written() {
    let mut r = Renderer::new(2, 2);
    r.draw(&vec![(5, 5, 5); 4]).unwrap();
    let mut next = vec![(5, 5, 5); 4];
    next[2] = (6, 6, 6);
    r.draw(&next).unwrap();
    assert_output(&r, &[(1, 0, (6, 6, 6))]);
}

#[test]
fn resize_to_same_size_changes_nothing() {
    let mut r = Renderer::new(2, 2);
    r.draw(&vec![(9, 9, 9); 4]).unwrap();
    assert!(!r.resize(2, 2));
    r.draw(&vec![(9, 9, 9); 4]).unwrap();
    assert!(r.output().is_empty());
}

#[test]
fn resize_resets_the_screen_to_black() {
    let mut r = Renderer::new(2, 2);
    r.draw(&vec![(9, 9, 9); 4]).unwrap();
    assert!(r.resize(3, 1));
    assert_eq!(r.width(), 3);
    assert_eq!(r.height(), 1);
    let frame = vec![(0, 0, 0), (9, 9, 9), (0, 0, 0)];
    r.draw(&frame).unwrap();
    assert_output(&r, &[(1, 0, (9, 9, 9))]);
}

#[test]
fn empty_terminal_draws_nothing() {
    let mut r = Renderer::new(0, 5);
    r.draw(&Vec::new()).unwrap();
    assert!(r.output().is_empty());
    assert!(r.resize(5, 0));
    r.draw(&Vec::new()).unwrap();
    assert!(r.output().is_empty());
}
