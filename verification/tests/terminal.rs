use herdr_pluck::model::{RenderLine, RenderSpan, RenderStyle};
use herdr_pluck::renderer::terminal::{
    emit_render_lines, render_commands, TerminalAttribute, TerminalColor, TerminalCommand,
};

#[test]
fn commands_clear_the_screen_and_style_every_span() {
    let lines = vec![RenderLine {
        spans: vec![
            RenderSpan {
                text: "open ".to_string(),
                style: RenderStyle::Unmatched,
            },
            RenderSpan {
                text: "a".to_string(),
                style: RenderStyle::Hint,
            },
            RenderSpan {
                text: "ttps://example.com".to_string(),
                style: RenderStyle::Match,
            },
        ],
    }];

    let commands = render_commands(&lines);

    assert_eq!(
        commands,
        vec![
            TerminalCommand::ClearAll,
            TerminalCommand::MoveTo(0, 0),
            TerminalCommand::SetForeground(TerminalColor::DarkGrey),
            TerminalCommand::SetAttribute(TerminalAttribute::Dim),
            TerminalCommand::Print("open ".to_string()),
            TerminalCommand::SetAttribute(TerminalAttribute::Reset),
            TerminalCommand::SetForeground(TerminalColor::Black),
            TerminalCommand::SetBackground(TerminalColor::Cyan),
            TerminalCommand::SetAttribute(TerminalAttribute::Bold),
            TerminalCommand::Print("a".to_string()),
            TerminalCommand::SetAttribute(TerminalAttribute::Reset),
            TerminalCommand::SetForeground(TerminalColor::Yellow),
            TerminalCommand::Print("ttps://example.com".to_string()),
            TerminalCommand::MoveTo(0, 0),
            TerminalCommand::ResetColor,
            TerminalCommand::SetAttribute(TerminalAttribute::Reset),
        ]
    );
}

#[test]
fn commands_position_each_row_without_newlines() {
    let lines = vec![
        RenderLine {
            spans: vec![RenderSpan {
                text: "one".to_string(),
                style: RenderStyle::Unmatched,
            }],
        },
        RenderLine {
            spans: vec![RenderSpan {
                text: "two".to_string(),
                style: RenderStyle::Match,
            }],
        },
    ];

    let commands = render_commands(&lines);

    assert_eq!(commands[1], TerminalCommand::MoveTo(0, 0));
    assert_eq!(commands[5], TerminalCommand::MoveTo(0, 1));
    assert!(!commands.iter().any(|c| matches!(c, TerminalCommand::Print(t) if t.contains('\n'))));
    assert_eq!(
        &commands[commands.len() - 3..],
        &[
            TerminalCommand::MoveTo(0, 0),
            TerminalCommand::ResetColor,
            TerminalCommand::SetAttribute(TerminalAttribute::Reset),
        ]
    );
}

#[test]
fn terminal_emission_clears_screen_and_writes_all_spans() {
    let lines = vec![RenderLine {
        spans: vec![
            RenderSpan {
                text: "open ".to_string(),
                style: RenderStyle::Unmatched,
            },
            RenderSpan {
                text: "a".to_string(),
                style: RenderStyle::Hint,
            },
            RenderSpan {
                text: "ttps://example.com".to_string(),
                style: RenderStyle::Match,
            },
        ],
    }];

    let output = emit_render_lines(&lines);

    assert!(output.starts_with("\u{1b}[2J\u{1b}[1;1H"));
    assert!(output.contains("open "));
    assert!(output.contains("a"));
    assert!(output.contains("ttps://example.com"));
    assert!(output.contains("\u{1b}[38;5;0m"));
    assert!(output.contains("\u{1b}[48;5;14m"));
    assert!(output.contains("\u{1b}[38;5;11m"));
}

#[test]
fn terminal_emission_positions_lines_without_newlines() {
    let lines = vec![
        RenderLine {
            spans: vec![RenderSpan {
                text: "one".to_string(),
                style: RenderStyle::Unmatched,
            }],
        },
        RenderLine {
            spans: vec![RenderSpan {
                text: "two".to_string(),
                style: RenderStyle::Match,
            }],
        },
    ];

    let output = emit_render_lines(&lines);

    assert!(output.contains("\u{1b}[1;1H"));
    assert!(output.contains("\u{1b}[2;1H"));
    assert!(!output.contains("\r\n"));
    assert!(output.ends_with("\u{1b}[1;1H\u{1b}[0m\u{1b}[0m"));
}

#[test]
fn rows_beyond_nine_use_two_digit_positions() {
    let lines: Vec<RenderLine> = (0..12).map(|_| RenderLine { spans: Vec::new() }).collect();

    let output = emit_render_lines(&lines);

    assert!(output.contains("\u{1b}[12;1H"));
    assert!(output.contains("\u{1b}[10;1H"));
}
