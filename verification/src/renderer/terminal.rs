//! The terminal commands that draw picker output.
//!
//! The screen is cleared, each row is drawn from its first column, every span
//! is preceded by the commands of its style, and the cursor is sent home with
//! colors and attributes reset, so that a full-width last row leaves no
//! pending wrap.

use crate::model::{RenderLine, RenderSpan, RenderStyle};
use crossterm::cursor::MoveTo;
use crossterm::style::{Color, SetBackgroundColor, SetForegroundColor};
use vstd::prelude::*;
use vstd::string::StringExecFns;

verus! {

#[derive(Debug, Clone, Copy, PartialEq, Eq, Structural)]
pub enum TerminalColor {
    DarkGrey,
    Yellow,
    Black,
    Cyan,
}

#[derive(Debug, Clone, Copy, PartialEq, Eq, Structural)]
pub enum TerminalAttribute {
    Reset,
    Dim,
    Bold,
}

/// One command to the terminal.
#[derive(Debug, Clone, PartialEq, Eq)]
pub enum TerminalCommand {
    ClearAll,
    MoveTo(u16, u16),
    SetForeground(TerminalColor),
    SetBackground(TerminalColor),
    SetAttribute(TerminalAttribute),
    ResetColor,
    Print(String),
}

/// A terminal command with its text as characters.
pub enum CommandView {
    ClearAll,
    MoveTo(u16, u16),
    SetForeground(TerminalColor),
    SetBackground(TerminalColor),
    SetAttribute(TerminalAttribute),
    ResetColor,
    Print(Seq<char>),
}

impl View for TerminalCommand {
    type V = CommandView;

    open spec fn view(&self) -> CommandView {
        match self {
            TerminalCommand::ClearAll => CommandView::ClearAll,
            TerminalCommand::MoveTo(c, r) => CommandView::MoveTo(*c, *r),
            TerminalCommand::SetForeground(c) => CommandView::SetForeground(*c),
            TerminalCommand::SetBackground(c) => CommandView::SetBackground(*c),
            TerminalCommand::SetAttribute(a) => CommandView::SetAttribute(*a),
            TerminalCommand::ResetColor => CommandView::ResetColor,
            TerminalCommand::Print(t) => CommandView::Print(t@),
        }
    }
}

pub open spec fn command_views(v: Seq<TerminalCommand>) -> Seq<CommandView> {
    v.map_values(|c: TerminalCommand| c@)
}

/// The commands that set a span's style: unmatched text is dim grey, matches
/// are yellow, hints are bold black on cyan.
pub open spec fn style_plan(style: RenderStyle) -> Seq<CommandView> {
    match style {
        RenderStyle::Unmatched => seq![
            CommandView::SetForeground(TerminalColor::DarkGrey),
            CommandView::SetAttribute(TerminalAttribute::Dim),
        ],
        RenderStyle::Match => seq![
            CommandView::SetAttribute(TerminalAttribute::Reset),
            CommandView::SetForeground(TerminalColor::Yellow),
        ],
        RenderStyle::Hint => seq![
            CommandView::SetAttribute(TerminalAttribute::Reset),
            CommandView::SetForeground(TerminalColor::Black),
            CommandView::SetBackground(TerminalColor::Cyan),
            CommandView::SetAttribute(TerminalAttribute::Bold),
        ],
    }
}

pub open spec fn spans_plan(spans: Seq<RenderSpan>) -> Seq<CommandView>
    decreases spans.len(),
{
    if spans.len() == 0 {
        Seq::empty()
    } else {
        spans_plan(spans.drop_last()) + style_plan(spans.last().style) + seq![CommandView::Print(spans.last().text@)]
    }
}

/// The commands of the rows: each moves to the start of its row, then draws its spans.
pub open spec fn rows_plan(lines: Seq<RenderLine>) -> Seq<CommandView>
    decreases lines.len(),
{
    if lines.len() == 0 {
        Seq::empty()
    } else {
        rows_plan(lines.drop_last()) + seq![CommandView::MoveTo(0, (lines.len() - 1) as u16)]
            + spans_plan(lines.last().spans@)
    }
}

pub open spec fn screen_plan(lines: Seq<RenderLine>) -> Seq<CommandView> {
    seq![CommandView::ClearAll] + rows_plan(lines) + seq![
        CommandView::MoveTo(0, 0),
        CommandView::ResetColor,
        CommandView::SetAttribute(TerminalAttribute::Reset),
    ]
}

/// Appends the commands that set a style.
pub fn queue_style(out: &mut Vec<TerminalCommand>, style: RenderStyle)
    ensures
        command_views(final(out)@) == command_views(old(out)@) + style_plan(style),
{
    let ghost before = out@;
    match style {
        RenderStyle::Unmatched => {
            out.push(TerminalCommand::SetForeground(TerminalColor::DarkGrey));
            out.push(TerminalCommand::SetAttribute(TerminalAttribute::Dim));
        },
        RenderStyle::Match => {
            out.push(TerminalCommand::SetAttribute(TerminalAttribute::Reset));
            out.push(TerminalCommand::SetForeground(TerminalColor::Yellow));
        },
        RenderStyle::Hint => {
            out.push(TerminalCommand::SetAttribute(TerminalAttribute::Reset));
            out.push(TerminalCommand::SetForeground(TerminalColor::Black));
            out.push(TerminalCommand::SetBackground(TerminalColor::Cyan));
            out.push(TerminalCommand::SetAttribute(TerminalAttribute::Bold));
        },
    }
    assert(command_views(out@) =~= command_views(before) + style_plan(style));
}

/// The commands that draw the picker's rows on a cleared screen.
pub fn render_commands(lines: &[RenderLine]) -> (r: Vec<TerminalCommand>)
    ensures
        command_views(r@) == screen_plan(lines@),
{
    let mut out: Vec<TerminalCommand> = Vec::new();
    out.push(TerminalCommand::ClearAll);
    assert(command_views(out@) =~= seq![CommandView::ClearAll] + rows_plan(lines@.take(0)));
    let mut i: usize = 0;
    while i < lines.len()
        invariant
            i <= lines@.len(),
            command_views(out@) == seq![CommandView::ClearAll] + rows_plan(lines@.take(i as int)),
        decreases lines@.len() - i,
    {
        let ghost before = command_views(out@);
        let row = i as u16;
        out.push(TerminalCommand::MoveTo(0, row));
        assert(command_views(out@) =~= before + seq![CommandView::MoveTo(0, row)]);
        let spans = &lines[i].spans;
        let ghost mid = command_views(out@);
        let mut k: usize = 0;
        while k < spans.len()
            invariant
                k <= spans@.len(),
                command_views(out@) == mid + spans_plan(spans@.take(k as int)),
            decreases spans@.len() - k,
        {
            let ghost b = command_views(out@);
            queue_style(&mut out, spans[k].style);
            let ghost b2 = command_views(out@);
            out.push(TerminalCommand::Print(spans[k].text.clone()));
            assert(command_views(out@) =~= b2 + seq![CommandView::Print(spans@[k as int].text@)]);
            assert(spans@.take(k + 1).drop_last() =~= spans@.take(k as int));
            assert(command_views(out@) =~= mid + spans_plan(spans@.take(k + 1)));
            k = k + 1;
        }
        assert(spans@.take(spans@.len() as int) =~= spans@);
        assert(lines@.take(i + 1).drop_last() =~= lines@.take(i as int));
        assert(command_views(out@) =~= seq![CommandView::ClearAll] + rows_plan(lines@.take(i + 1)));
        i = i + 1;
    }
    let ghost before = command_views(out@);
    out.push(TerminalCommand::MoveTo(0, 0));
    out.push(TerminalCommand::ResetColor);
    out.push(TerminalCommand::SetAttribute(TerminalAttribute::Reset));
    assert(lines@.take(lines@.len() as int) =~= lines@);
    assert(command_views(out@) =~= screen_plan(lines@));
    out
}

/// The decimal numeral of `n`.
pub open spec fn decimal(n: nat) -> Seq<char>
    decreases n,
{
    if n < 10 {
        seq![((48 + n) as u32) as char]
    } else {
        decimal(n / 10).push(((48 + n % 10) as u32) as char)
    }
}

/// The escape sequence that moves the cursor to a 0-based column and row.
pub open spec fn move_to_text(column: u16, row: u16) -> Seq<char> {
    "\u{1b}["@ + decimal((row + 1) as nat) + ";"@ + decimal((column + 1) as nat) + "H"@
}

/// The 256-color palette entry of a color.
pub open spec fn color_code(color: TerminalColor) -> Seq<char> {
    match color {
        TerminalColor::DarkGrey => "5;8"@,
        TerminalColor::Yellow => "5;11"@,
        TerminalColor::Black => "5;0"@,
        TerminalColor::Cyan => "5;14"@,
    }
}

/// The escape sequence that sets a foreground (`layer` "38;") or background
/// (`layer` "48;") color; with colors disabled it sets nothing.
pub open spec fn color_text(layer: Seq<char>, color: TerminalColor, colored: bool) -> Seq<char> {
    if colored {
        "\u{1b}["@ + layer + color_code(color) + "m"@
    } else {
        "\u{1b}[m"@
    }
}

pub open spec fn attribute_text(attribute: TerminalAttribute) -> Seq<char> {
    match attribute {
        TerminalAttribute::Reset => "\u{1b}[0m"@,
        TerminalAttribute::Dim => "\u{1b}[2m"@,
        TerminalAttribute::Bold => "\u{1b}[1m"@,
    }
}

/// `out` is what the terminal receives for command `c`.
pub open spec fn command_text(c: CommandView, out: Seq<char>) -> bool {
    match c {
        CommandView::ClearAll => out == "\u{1b}[2J"@,
        CommandView::MoveTo(column, row) => out == move_to_text(column, row),
        CommandView::SetForeground(color) => out == color_text("38;"@, color, true) || out
            == color_text("38;"@, color, false),
        CommandView::SetBackground(color) => out == color_text("48;"@, color, true) || out
            == color_text("48;"@, color, false),
        CommandView::SetAttribute(attribute) => out == attribute_text(attribute),
        CommandView::ResetColor => out == "\u{1b}[0m"@,
        CommandView::Print(text) => out == text,
    }
}

/// `out` is what the terminal receives for command `c` when colours are on
/// (`colored`) or off: every colour is then written in that one mode.
pub open spec fn command_text_in(c: CommandView, out: Seq<char>, colored: bool) -> bool {
    match c {
        CommandView::SetForeground(color) => out == color_text("38;"@, color, colored),
        CommandView::SetBackground(color) => out == color_text("48;"@, color, colored),
        _ => command_text(c, out),
    }
}

/// `out` is the screen's commands written one after another, all colours in one mode.
pub open spec fn screen_text_in(lines: Seq<RenderLine>, out: Seq<char>, colored: bool) -> bool {
    let plan = screen_plan(lines);
    exists|pieces: Seq<Seq<char>>| {
        &&& pieces.len() == plan.len()
        &&& forall|i: int| 0 <= i < plan.len() ==> command_text_in(plan[i], #[trigger] pieces[i], colored)
        &&& out == pieces.flatten_alt()
    }
}

/// `out` is the screen's commands written one after another.
pub open spec fn screen_text(lines: Seq<RenderLine>, out: Seq<char>) -> bool {
    let plan = screen_plan(lines);
    exists|pieces: Seq<Seq<char>>| {
        &&& pieces.len() == plan.len()
        &&& forall|i: int| 0 <= i < plan.len() ==> command_text(plan[i], #[trigger] pieces[i])
        &&& out == pieces.flatten_alt()
    }
}

/// `crossterm::cursor::MoveTo`'s `write_ansi`: writes `ESC [ row+1 ; column+1 H`
/// in decimal. It adds one to each coordinate, so the largest `u16` is left out.
#[verifier::external_body]
fn move_to_ansi(column: u16, row: u16) -> (r: String)
    requires
        column < 65535,
        row < 65535,
    ensures
        r@ == move_to_text(column, row),
{
    let mut out = String::new();
    let _ = crossterm::Command::write_ansi(&MoveTo(column, row), &mut out);
    out
}

/// `crossterm::style::SetForegroundColor`'s `write_ansi`: writes `ESC [ 38;5;N m` for
/// the palette entry N of the color, or `ESC [ m` when colors are disabled by the
/// `NO_COLOR` environment variable. Which of the two comes out is not stated.
#[verifier::external_body]
fn foreground_ansi(color: TerminalColor) -> (r: String)
    ensures
        r@ == color_text("38;"@, color, true) || r@ == color_text("38;"@, color, false),
{
    let c = match color {
        TerminalColor::DarkGrey => Color::DarkGrey,
        TerminalColor::Yellow => Color::Yellow,
        TerminalColor::Black => Color::Black,
        TerminalColor::Cyan => Color::Cyan,
    };
    let mut out = String::new();
    let _ = crossterm::Command::write_ansi(&SetForegroundColor(c), &mut out);
    out
}

/// `crossterm::style::SetBackgroundColor`'s `write_ansi`: writes `ESC [ 48;5;N m` for
/// the palette entry N of the color, or `ESC [ m` when colors are disabled by the
/// `NO_COLOR` environment variable. Which of the two comes out is not stated.
#[verifier::external_body]
fn background_ansi(color: TerminalColor) -> (r: String)
    ensures
        r@ == color_text("48;"@, color, true) || r@ == color_text("48;"@, color, false),
{
    let c = match color {
        TerminalColor::DarkGrey => Color::DarkGrey,
        TerminalColor::Yellow => Color::Yellow,
        TerminalColor::Black => Color::Black,
        TerminalColor::Cyan => Color::Cyan,
    };
    let mut out = String::new();
    let _ = crossterm::Command::write_ansi(&SetBackgroundColor(c), &mut out);
    out
}

/// Every cursor move of the screen is to column 0 of one of its rows, or home.
proof fn lemma_spans_plan_no_moves(spans: Seq<RenderSpan>)
    ensures
        forall|j: int| 0 <= j < spans_plan(spans).len() ==> !(#[trigger] spans_plan(spans)[j] is MoveTo),
    decreases spans.len(),
{
    if spans.len() > 0 {
        lemma_spans_plan_no_moves(spans.drop_last());
        let a = spans_plan(spans.drop_last());
        let b = style_plan(spans.last().style);
        let c = seq![CommandView::Print(spans.last().text@)];
        assert forall|j: int| 0 <= j < spans_plan(spans).len() implies !(#[trigger] spans_plan(spans)[j] is MoveTo) by {
            if j < a.len() {
                assert(spans_plan(spans)[j] == a[j]);
            } else if j < a.len() + b.len() {
                assert(spans_plan(spans)[j] == b[j - a.len()]);
            } else {
                assert(spans_plan(spans)[j] == c[j - a.len() - b.len()]);
            }
        }
    }
}

proof fn lemma_rows_plan_moves(lines: Seq<RenderLine>)
    requires
        lines.len() <= 65535,
    ensures
        forall|j: int| 0 <= j < rows_plan(lines).len() ==> (#[trigger] rows_plan(lines)[j] matches CommandView::MoveTo(c, r) ==> c == 0 && r < 65535),
    decreases lines.len(),
{
    if lines.len() > 0 {
        lemma_rows_plan_moves(lines.drop_last());
        lemma_spans_plan_no_moves(lines.last().spans@);
        let a = rows_plan(lines.drop_last());
        let b = seq![CommandView::MoveTo(0, (lines.len() - 1) as u16)];
        let c = spans_plan(lines.last().spans@);
        assert forall|j: int| 0 <= j < rows_plan(lines).len() implies (#[trigger] rows_plan(lines)[j] matches CommandView::MoveTo(c, r) ==> c == 0 && r < 65535) by {
            if j < a.len() {
                assert(rows_plan(lines)[j] == a[j]);
            } else if j < a.len() + 1 {
                assert(rows_plan(lines)[j] == b[0]);
            } else {
                assert(rows_plan(lines)[j] == c[j - a.len() - 1]);
            }
        }
    }
}

/// The position of a colour in the tables of escapes.
pub open spec fn color_slot(color: TerminalColor) -> int {
    match color {
        TerminalColor::DarkGrey => 0,
        TerminalColor::Yellow => 1,
        TerminalColor::Black => 2,
        TerminalColor::Cyan => 3,
    }
}

fn color_slot_exec(color: TerminalColor) -> (r: usize)
    ensures
        r == color_slot(color),
{
    match color {
        TerminalColor::DarkGrey => 0,
        TerminalColor::Yellow => 1,
        TerminalColor::Black => 2,
        TerminalColor::Cyan => 3,
    }
}

/// The escapes of the four colours on both layers, all written in one colour mode.
pub struct ColorEscapes {
    pub colored: bool,
    pub foreground: Vec<String>,
    pub background: Vec<String>,
}

pub open spec fn escapes_in_mode(e: ColorEscapes) -> bool {
    &&& e.foreground@.len() == 4
    &&& e.background@.len() == 4
    &&& forall|c: TerminalColor| (#[trigger] e.foreground@[color_slot(c)])@ == color_text("38;"@, c, e.colored)
    &&& forall|c: TerminalColor| (#[trigger] e.background@[color_slot(c)])@ == color_text("48;"@, c, e.colored)
}

proof fn lemma_color_text_lengths(layer: Seq<char>, c: TerminalColor)
    requires
        layer.len() == 3,
    ensures
        color_text(layer, c, true).len() >= 9,
        color_text(layer, c, false).len() == 3,
{
    reveal_strlit("\u{1b}[");
    reveal_strlit("m");
    reveal_strlit("\u{1b}[m");
    reveal_strlit("5;8");
    reveal_strlit("5;11");
    reveal_strlit("5;0");
    reveal_strlit("5;14");
}

/// Asks crossterm for the escape of every colour on both layers. Colours count as
/// on when none of them came back as the bare reset that crossterm writes with
/// colours disabled; otherwise every colour is written as that reset.
fn color_escapes() -> (r: ColorEscapes)
    ensures
        escapes_in_mode(r),
{
    let colors = [TerminalColor::DarkGrey, TerminalColor::Yellow, TerminalColor::Black, TerminalColor::Cyan];
    let mut foreground: Vec<String> = Vec::new();
    let mut background: Vec<String> = Vec::new();
    let mut colored = true;
    let mut i: usize = 0;
    proof {
        reveal_strlit("38;");
        reveal_strlit("48;");
    }
    while i < 4
        invariant
            i <= 4,
            colors@ == seq![TerminalColor::DarkGrey, TerminalColor::Yellow, TerminalColor::Black, TerminalColor::Cyan],
            "38;"@.len() == 3,
            "48;"@.len() == 3,
            foreground@.len() == i,
            background@.len() == i,
            forall|k: int| 0 <= k < i ==> color_slot(#[trigger] colors@[k]) == k,
            colored ==> forall|k: int| 0 <= k < i ==> (#[trigger] foreground@[k])@ == color_text("38;"@, colors@[k], true),
            colored ==> forall|k: int| 0 <= k < i ==> (#[trigger] background@[k])@ == color_text("48;"@, colors@[k], true),
        decreases 4 - i,
    {
        let c = colors[i];
        let f = foreground_ansi(c);
        let b = background_ansi(c);
        proof {
            lemma_color_text_lengths("38;"@, c);
            lemma_color_text_lengths("48;"@, c);
        }
        if crate::text::char_count(&f) == 3 || crate::text::char_count(&b) == 3 {
            colored = false;
        }
        foreground.push(f);
        background.push(b);
        i = i + 1;
    }
    if colored {
        let r = ColorEscapes { colored, foreground, background };
        assert forall|c: TerminalColor| (#[trigger] r.foreground@[color_slot(c)])@ == color_text("38;"@, c, r.colored) by {
            assert(colors@[color_slot(c)] == c);
        }
        assert forall|c: TerminalColor| (#[trigger] r.background@[color_slot(c)])@ == color_text("48;"@, c, r.colored) by {
            assert(colors@[color_slot(c)] == c);
        }
        r
    } else {
        let mut plain_fg: Vec<String> = Vec::new();
        let mut plain_bg: Vec<String> = Vec::new();
        let mut k: usize = 0;
        while k < 4
            invariant
                k <= 4,
                plain_fg@.len() == k,
                plain_bg@.len() == k,
                forall|j: int| 0 <= j < k ==> (#[trigger] plain_fg@[j])@ == "\u{1b}[m"@,
                forall|j: int| 0 <= j < k ==> (#[trigger] plain_bg@[j])@ == "\u{1b}[m"@,
            decreases 4 - k,
        {
            plain_fg.push(String::from_str("\u{1b}[m"));
            plain_bg.push(String::from_str("\u{1b}[m"));
            k = k + 1;
        }
        ColorEscapes { colored: false, foreground: plain_fg, background: plain_bg }
    }
}

/// What the terminal receives for one command, with the screen's colour escapes.
fn command_ansi(command: &TerminalCommand, escapes: &ColorEscapes) -> (r: String)
    requires
        command@ matches CommandView::MoveTo(c, r) ==> c < 65535 && r < 65535,
        escapes_in_mode(*escapes),
    ensures
        command_text_in(command@, r@, escapes.colored),
{
    match command {
        TerminalCommand::ClearAll => String::from_str("\u{1b}[2J"),
        TerminalCommand::MoveTo(column, row) => move_to_ansi(*column, *row),
        TerminalCommand::SetForeground(color) => {
            let slot = color_slot_exec(*color);
            escapes.foreground[slot].clone()
        },
        TerminalCommand::SetBackground(color) => {
            let slot = color_slot_exec(*color);
            escapes.background[slot].clone()
        },
        TerminalCommand::SetAttribute(attribute) => match attribute {
            TerminalAttribute::Reset => String::from_str("\u{1b}[0m"),
            TerminalAttribute::Dim => String::from_str("\u{1b}[2m"),
            TerminalAttribute::Bold => String::from_str("\u{1b}[1m"),
        },
        TerminalCommand::ResetColor => String::from_str("\u{1b}[0m"),
        TerminalCommand::Print(text) => text.clone(),
    }
}

/// The text that draws the picker's rows on a cleared screen. Rows are placed by
/// cursor moves, so no newline is written between them.
pub fn emit_render_lines(lines: &[RenderLine]) -> (r: String)
    requires
        lines@.len() <= 65535,
    ensures
        screen_text(lines@, r@),
        exists|colored: bool| screen_text_in(lines@, r@, colored),
{
    let commands = render_commands(lines);
    let escapes = color_escapes();
    let ghost plan = screen_plan(lines@);
    proof {
        lemma_rows_plan_moves(lines@);
        let rows = rows_plan(lines@);
        assert forall|j: int| 0 <= j < plan.len() implies (#[trigger] plan[j] matches CommandView::MoveTo(c, r) ==> c < 65535 && r < 65535) by {
            if 1 <= j < 1 + rows.len() {
                assert(plan[j] == rows[j - 1]);
            }
        }
    }
    let mut out = String::new();
    let ghost mut pieces: Seq<Seq<char>> = Seq::empty();
    let mut k: usize = 0;
    while k < commands.len()
        invariant
            k <= commands@.len(),
            command_views(commands@) == plan,
            forall|j: int| 0 <= j < plan.len() ==> (#[trigger] plan[j] matches CommandView::MoveTo(c, r) ==> c < 65535 && r < 65535),
            pieces.len() == k,
            escapes_in_mode(escapes),
            forall|i: int| 0 <= i < k ==> command_text_in(plan[i], #[trigger] pieces[i], escapes.colored),
            out@ == pieces.flatten_alt(),
        decreases commands@.len() - k,
    {
        assert(command_views(commands@)[k as int] == commands@[k as int]@);
        let piece = command_ansi(&commands[k], &escapes);
        out.append(piece.as_str());
        proof {
            let old_pieces = pieces;
            pieces = pieces.push(piece@);
            assert(pieces.drop_last() =~= old_pieces);
        }
        k = k + 1;
    }
    assert(pieces.len() == plan.len());
    assert(screen_text_in(lines@, out@, escapes.colored));
    assert forall|i: int| 0 <= i < plan.len() implies command_text(plan[i], #[trigger] pieces[i]) by {
        assert(command_text_in(plan[i], pieces[i], escapes.colored));
    }
    out
}

/// A screen writes all its colours in one mode: any two foreground commands of it
/// are either both written as `ESC [ 38;5;N m` with N each colour's own palette
/// entry, or both as the bare `ESC [ m` of disabled colours; the same holds of
/// background commands, with `48;`.
pub proof fn lemma_screen_colours_share_one_mode(lines: Seq<RenderLine>, out: Seq<char>, colored: bool)
    requires
        screen_text_in(lines, out, colored),
    ensures
        exists|pieces: Seq<Seq<char>>|
            #![trigger pieces.flatten_alt()]
            {
            let plan = screen_plan(lines);
            &&& pieces.len() == plan.len()
            &&& out == pieces.flatten_alt()
            &&& forall|i: int, j: int| 0 <= i < plan.len() && 0 <= j < plan.len()
                && (#[trigger] plan[i]) is SetForeground && (#[trigger] plan[j]) is SetForeground ==> {
                ||| pieces[i] == "\u{1b}[38;"@ + color_code(plan[i]->SetForeground_0) + "m"@
                    && pieces[j] == "\u{1b}[38;"@ + color_code(plan[j]->SetForeground_0) + "m"@
                ||| pieces[i] == "\u{1b}[m"@ && pieces[j] == "\u{1b}[m"@
            }
            &&& forall|i: int, j: int| 0 <= i < plan.len() && 0 <= j < plan.len()
                && (#[trigger] plan[i]) is SetBackground && (#[trigger] plan[j]) is SetBackground ==> {
                ||| pieces[i] == "\u{1b}[48;"@ + color_code(plan[i]->SetBackground_0) + "m"@
                    && pieces[j] == "\u{1b}[48;"@ + color_code(plan[j]->SetBackground_0) + "m"@
                ||| pieces[i] == "\u{1b}[m"@ && pieces[j] == "\u{1b}[m"@
            }
        },
{
    let plan = screen_plan(lines);
    let pieces = choose|pieces: Seq<Seq<char>>| {
        &&& pieces.len() == plan.len()
        &&& forall|i: int| 0 <= i < plan.len() ==> command_text_in(plan[i], #[trigger] pieces[i], colored)
        &&& out == pieces.flatten_alt()
    };
    reveal_strlit("\u{1b}[38;");
    reveal_strlit("\u{1b}[48;");
    reveal_strlit("\u{1b}[");
    reveal_strlit("38;");
    reveal_strlit("48;");
    assert forall|c: TerminalColor| color_text("38;"@, c, true) == "\u{1b}[38;"@ + color_code(c) + "m"@ by {
        assert(color_text("38;"@, c, true) =~= "\u{1b}[38;"@ + color_code(c) + "m"@);
    }
    assert forall|c: TerminalColor| color_text("48;"@, c, true) == "\u{1b}[48;"@ + color_code(c) + "m"@ by {
        assert(color_text("48;"@, c, true) =~= "\u{1b}[48;"@ + color_code(c) + "m"@);
    }
    assert forall|i: int| 0 <= i < plan.len() implies command_text_in(plan[i], #[trigger] pieces[i], colored) by {}
}

} // verus!
