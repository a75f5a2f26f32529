use herdr_pluck::hints::{assign_hints, label, width_for};
use herdr_pluck::model::{MatchSpan, PatternSpec, RenderStyle, SourcePaneGeometry, PaneId, Rect, VisibleViewport};
use herdr_pluck::patterns::{compile_pattern_specs, find_matches, find_openable_urls};
use herdr_pluck::picker::render::render_pane;

fn lines(v: &[&str]) -> Vec<String> {
    v.iter().map(|s| s.to_string()).collect()
}

#[test]
fn tokens_with_a_slash_are_copyable() {
    let rule = compile_pattern_specs(&[]);
    let found = find_matches(&lines(&["see /tmp/a and\tb/c", "", "none here", "x ./y"]), &rule);

    let spans: Vec<(usize, usize, usize, &str)> = found
        .iter()
        .map(|m| (m.line, m.start, m.end, m.text.as_str()))
        .collect();
    assert_eq!(
        spans,
        vec![(0, 4, 10, "/tmp/a"), (0, 15, 18, "b/c"), (3, 2, 5, "./y")]
    );
}

#[test]
fn only_http_urls_are_openable() {
    let found = find_openable_urls(&lines(&["http:// https://a.b http://c ftp://d httpx://e"]));

    let texts: Vec<&str> = found.iter().map(|m| m.text.as_str()).collect();
    assert_eq!(texts, vec!["https://a.b", "http://c"]);
}

#[test]
fn empty_patterns_match_nothing_extra() {
    let rule = compile_pattern_specs(&[PatternSpec { pattern: String::new() }]);
    assert!(find_matches(&lines(&["plain words"]), &rule).is_empty());
}

#[test]
fn hints_are_numerals_of_fixed_width() {
    assert_eq!(width_for(0), 1);
    assert_eq!(width_for(26), 1);
    assert_eq!(width_for(27), 2);
    assert_eq!(width_for(676), 2);
    assert_eq!(width_for(677), 3);
    assert_eq!(label(0, 1), "a");
    assert_eq!(label(25, 1), "z");
    assert_eq!(label(27, 2), "bb");
    assert_eq!(label(675, 2), "zz");
}

#[test]
fn assigned_hints_are_distinct() {
    let matches: Vec<MatchSpan> = (0..30)
        .map(|i| MatchSpan {
            line: i,
            start: 0,
            end: 1,
            text: "/".to_string(),
        })
        .collect();

    let assignments = assign_hints(matches);

    let mut hints: Vec<&str> = assignments.hints();
    assert_eq!(hints.len(), 30);
    assert!(hints.iter().all(|h| h.len() == 2));
    hints.sort();
    hints.dedup();
    assert_eq!(hints.len(), 30);
}

#[test]
fn viewport_rows_show_hints_of_their_logical_line() {
    let logical = vec!["ab /cdef".to_string()];
    let pane = SourcePaneGeometry {
        pane_id: PaneId::new("p"),
        outer_rect: Rect::new(0, 0, 4, 2),
        content_rect: Rect::new(0, 0, 4, 2),
        content_width: 4,
        content_height: 2,
        logical_lines: logical.clone(),
        visible_viewport: Some(herdr_pluck::viewport::map_visible_viewport(logical.clone(), 4, 2)),
        cwd: None,
    };
    let rule = compile_pattern_specs(&[]);
    let assignments = assign_hints(find_matches(&logical, &rule));

    let rows = render_pane(&pane, &assignments);

    assert_eq!(rows.len(), 2);
    let row0: Vec<(&str, RenderStyle)> = rows[0].spans.iter().map(|s| (s.text.as_str(), s.style)).collect();
    let row1: Vec<(&str, RenderStyle)> = rows[1].spans.iter().map(|s| (s.text.as_str(), s.style)).collect();
    assert_eq!(row0, vec![("ab ", RenderStyle::Unmatched), ("a", RenderStyle::Hint)]);
    assert_eq!(row1, vec![("cdef", RenderStyle::Match)]);
    let _ = VisibleViewport { rows: Vec::new(), logical_lines: Vec::new(), segments: Vec::new() };
}
