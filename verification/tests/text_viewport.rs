use herdr_pluck::model::{ViewportSegment, VisibleViewport};
use herdr_pluck::text::lines_of;
use herdr_pluck::viewport::map_visible_viewport;

#[test]
fn lines_split_like_str_lines() {
    assert_eq!(lines_of("a\nb\r\nc"), vec!["a", "b", "c"]);
    assert_eq!(lines_of("a\n"), vec!["a"]);
    assert_eq!(lines_of("\n\nx"), vec!["", "", "x"]);
    assert_eq!(lines_of(""), Vec::<String>::new());
    assert_eq!(lines_of("tail\r"), vec!["tail\r"]);
    let text = "one\r\ntwo\n\nthree";
    assert_eq!(lines_of(text), text.lines().collect::<Vec<_>>());
}

#[test]
fn long_lines_wrap_into_rows() {
    let viewport = map_visible_viewport(vec!["abcdefg".to_string(), "".to_string(), "xy".to_string()], 3, 10);

    assert_eq!(viewport.rows, vec!["abc", "def", "g", "", "xy"]);
    assert_eq!(
        viewport.segments,
        vec![
            ViewportSegment { line: 0, start: 0, len: 3 },
            ViewportSegment { line: 0, start: 3, len: 3 },
            ViewportSegment { line: 0, start: 6, len: 1 },
            ViewportSegment { line: 1, start: 0, len: 0 },
            ViewportSegment { line: 2, start: 0, len: 2 },
        ]
    );
    assert_eq!(viewport.logical_lines.len(), 3);
}

#[test]
fn rows_stop_at_the_pane_height() {
    let viewport = map_visible_viewport(vec!["abcdef".to_string(), "gh".to_string()], 2, 2);

    assert_eq!(viewport.rows, vec!["ab", "cd"]);
    assert_eq!(viewport.logical_lines, vec!["abcdef", "gh"]);
}

#[test]
fn zero_width_pane_shows_no_rows() {
    let viewport = map_visible_viewport(vec!["abc".to_string()], 0, 5);

    assert_eq!(
        viewport,
        VisibleViewport {
            rows: Vec::new(),
            logical_lines: vec!["abc".to_string()],
            segments: Vec::new(),
        }
    );
}
