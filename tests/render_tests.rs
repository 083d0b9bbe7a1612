use modal_editor::render::style_switches;
use modal_editor::render::{Cell, RenderBuffer};
use modal_editor::style::{Color, Style};

#[test]
fn test_set_text() {
    let mut buffer = RenderBuffer::new(3, 15, Style::default());
    buffer.set_text(
        2,
        2,
        "Hello, world!",
        &Style {
            fg: Some(Color::Rgb { r: 0, g: 0, b: 0 }),
            bg: Some(Color::Rgb {
                r: 255,
                g: 255,
                b: 255,
            }),
            bold: false,
            italic: true,
        },
    );
    let start = 2 * 3 + 2;
    assert_eq!(buffer.cells[start].c, 'H');
    assert_eq!(
        buffer.cells[start].style.fg,
        Some(Color::Rgb { r: 0, g: 0, b: 0 })
    );
    assert_eq!(
        buffer.cells[start].style.bg,
        Some(Color::Rgb {
            r: 255,
            g: 255,
            b: 255
        })
    );
    assert_eq!(buffer.cells[start].style.italic, true);
    assert_eq!(buffer.cells[start + 1].c, 'e');
    assert_eq!(buffer.cells[start + 2].c, 'l');
    assert_eq!(buffer.cells[start + 3].c, 'l');
    assert_eq!(buffer.cells[start + 4].c, 'o');
    assert_eq!(buffer.cells[start + 5].c, ',');
    assert_eq!(buffer.cells[start + 6].c, ' ');
    assert_eq!(buffer.cells[start + 7].c, 'w');
    assert_eq!(buffer.cells[start + 8].c, 'o');
    assert_eq!(buffer.cells[start + 9].c, 'r');
    assert_eq!(buffer.cells[start + 10].c, 'l');
    assert_eq!(buffer.cells[start + 11].c, 'd');
    assert_eq!(buffer.cells[start + 12].c, '!');
}

#[test]
fn test_diff() {
    let buffer1 = RenderBuffer::new(3, 3, Style::default());
    let mut buffer2 = RenderBuffer::new(3, 3, Style::default());
    buffer2.set_char(
        0,
        0,
        'a',
        &Style {
            fg: Some(Color::Rgb { r: 0, g: 0, b: 0 }),
            bg: Some(Color::Rgb {
                r: 255,
                g: 255,
                b: 255,
            }),
            bold: false,
            italic: false,
        },
    );
    let diff = buffer2.diff(&buffer1);
    assert_eq!(diff.len(), 1);
    assert_eq!(diff[0].x, 0);
    assert_eq!(diff[0].y, 0);
    assert_eq!(diff[0].cell.c, 'a');
}

#[test]
fn test_buffer_diff() {
    let contents1 = vec![" 1:2 ".to_string()];
    let contents2 = vec![" 1:3 ".to_string()];
    let buffer1 = RenderBuffer::new_with_contents(5, 1, Style::default(), contents1);
    let buffer2 = RenderBuffer::new_with_contents(5, 1, Style::default(), contents2);
    let diff = buffer2.diff(&buffer1);
    assert_eq!(diff.len(), 1);
    assert_eq!(diff[0].x, 3);
    assert_eq!(diff[0].y, 0);
    assert_eq!(diff[0].cell.c, '3');
}

#[test]
fn new_grid_is_blank_in_default_style() {
    let style = Style { fg: Some(Color::Red), bg: None, bold: true, italic: false };
    let g = RenderBuffer::new(4, 2, style);
    assert_eq!(g.cells.len(), 8);
    assert!(g.cells.iter().all(|c| c.c == ' ' && c.style == style));
}

#[test]
fn diff_against_itself_is_empty() {
    let mut g = RenderBuffer::new(4, 3, Style::default());
    g.set_text(0, 1, "abcd", &Style::default());
    assert!(g.diff(&g.clone()).is_empty());
}

#[test]
fn diff_reports_style_only_change_in_row_major_order() {
    let prev = RenderBuffer::new(4, 3, Style::default());
    let mut cur = prev.clone();
    let bold = Style { bold: true, ..Style::default() };
    cur.set_char(1, 2, ' ', &bold);
    cur.set_char(3, 0, 'z', &Style::default());
    let diff = cur.diff(&prev);
    assert_eq!(diff.len(), 2);
    assert_eq!((diff[0].x, diff[0].y, diff[0].cell.c), (3, 0, 'z'));
    assert_eq!((diff[1].x, diff[1].y), (1, 2));
    assert_eq!(diff[1].cell.style, bold);
}

#[test]
fn contents_rows_are_padded_to_width() {
    let g = RenderBuffer::new_with_contents(4, 2, Style::default(), vec!["ab".to_string(), "wxyz".to_string()]);
    let text: String = g.cells.iter().map(|c| c.c).collect();
    assert_eq!(text, "ab  wxyz");
}

#[test]
fn set_row_cuts_and_pads() {
    let mut g = RenderBuffer::new(3, 2, Style::default());
    let row: Vec<Cell> = "abcd".chars().map(|c| Cell { c, style: Style::default() }).collect();
    g.set_row(0, &row, Style::default());
    g.set_row(1, &row[..1].to_vec(), Style::default());
    let text: String = g.cells.iter().map(|c| c.c).collect();
    assert_eq!(text, "abca  ");
}

#[test]
fn style_switches_mark_style_changes() {
    let a = Style::default();
    let b = Style { bold: true, ..Style::default() };
    let cells: Vec<Cell> = vec![Cell { c: 'x', style: a }, Cell { c: 'y', style: b }, Cell { c: 'z', style: b }, Cell { c: 'w', style: a }];
    assert_eq!(style_switches(&cells, a), vec![false, true, false, true]);
    assert_eq!(style_switches(&cells, b), vec![true, true, false, true]);
}

#[test]
fn clone_keeps_cells() {
    let mut g = RenderBuffer::new(2, 2, Style::default());
    g.set_text(0, 1, "hi", &Style::default());
    let h = g.clone();
    assert_eq!(h.cells, g.cells);
    assert_eq!((h.width, h.height), (2, 2));
}
