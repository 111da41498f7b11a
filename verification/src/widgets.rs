//! What the panes of the interface show: the lines of the chat pane and
//! which of them are visible, the status bar, the input cursor, and how a
//! terminal cell is styled. Colours and drawing are left to the application.
use vstd::prelude::*;
use vstd::string::StringExecFns;
use crate::tui::{ChatItem, ChatItemView, Focus};

verus! {

broadcast use vstd::string::group_string_axioms;

/// The colour role of a piece of text.
#[derive(Debug, Clone, Copy, PartialEq, Eq, Structural)]
pub enum Tone {
    User,
    Assistant,
    Tool,
    Error,
    Status,
    /// The highlight colour of focused borders and labels.
    Accent,
}

/// A piece of text with its colour role and emphasis.
#[derive(Debug, PartialEq, Eq)]
pub struct StyledSpan {
    pub text: String,
    pub tone: Tone,
    pub bold: bool,
    pub italic: bool,
}

/// The abstract value of a span.
pub struct SpanView {
    pub text: Seq<char>,
    pub tone: Tone,
    pub bold: bool,
    pub italic: bool,
}

impl View for StyledSpan {
    type V = SpanView;

    open spec fn view(&self) -> SpanView {
        SpanView { text: self.text@, tone: self.tone, bold: self.bold, italic: self.italic }
    }
}

/// The abstract value of a line of spans.
pub open spec fn line_view(l: Seq<StyledSpan>) -> Seq<SpanView> {
    l.map_values(|s: StyledSpan| s@)
}

/// The abstract value of a list of lines.
pub open spec fn lines_view(ls: Seq<Vec<StyledSpan>>) -> Seq<Seq<SpanView>> {
    ls.map_values(|l: Vec<StyledSpan>| line_view(l@))
}

/// A span.
pub open spec fn span(text: Seq<char>, tone: Tone, bold: bool, italic: bool) -> SpanView {
    SpanView { text, tone, bold, italic }
}

/// The line a chat item is shown as: a marker and the text, in the item's
/// colour; tool calls and results also name the tool.
pub open spec fn item_line(item: ChatItemView) -> Seq<SpanView> {
    match item {
        ChatItemView::User(t) => seq![span("> "@, Tone::User, true, false), span(t, Tone::User, false, false)],
        ChatItemView::Assistant(t) => seq![
            span("\u{25c6} "@, Tone::Assistant, true, false),
            span(t, Tone::Assistant, false, false),
        ],
        ChatItemView::ToolCall { name, args } => seq![
            span("\u{25b8} "@, Tone::Tool, false, false),
            span(name + " "@, Tone::Tool, true, false),
            span(args, Tone::Tool, false, true),
        ],
        ChatItemView::ToolResult { name, result } => seq![
            span("\u{25c2} "@, Tone::Tool, false, false),
            span(name + " \u{2192} "@, Tone::Tool, true, false),
            span(result, Tone::Tool, false, false),
        ],
        ChatItemView::Error(t) => seq![span("! "@, Tone::Error, true, false), span(t, Tone::Error, false, false)],
        ChatItemView::Status(t) => seq![
            span("\u{2026} "@, Tone::Status, false, false),
            span(t, Tone::Status, false, true),
        ],
    }
}

/// The lines of the chat pane: each item's line followed by an empty line.
pub open spec fn chat_lines_of(items: Seq<ChatItemView>) -> Seq<Seq<SpanView>>
    decreases items.len(),
{
    if items.len() == 0 {
        Seq::empty()
    } else {
        chat_lines_of(items.drop_last()).push(item_line(items.last())).push(Seq::empty())
    }
}

/// A span made from a literal and a text.
fn make_span(text: String, tone: Tone, bold: bool, italic: bool) -> (r: StyledSpan)
    ensures
        r@ == span(text@, tone, bold, italic),
{
    StyledSpan { text, tone, bold, italic }
}

/// `a` followed by `b`.
fn concat(a: &str, b: &str) -> (r: String)
    ensures
        r@ == a@ + b@,
{
    let mut s = a.to_string();
    s.append(b);
    s
}

/// The line a chat item is shown as (see `item_line`).
pub fn chat_item_line(item: &ChatItem) -> (r: Vec<StyledSpan>)
    ensures
        line_view(r@) == item_line(item@),
{
    proof {
        reveal_strlit("> ");
        reveal_strlit("\u{25c6} ");
        reveal_strlit("\u{25b8} ");
        reveal_strlit(" ");
        reveal_strlit("\u{25c2} ");
        reveal_strlit(" \u{2192} ");
        reveal_strlit("! ");
        reveal_strlit("\u{2026} ");
    }
    let mut v: Vec<StyledSpan> = Vec::new();
    match item {
        ChatItem::User(t) => {
            v.push(make_span("> ".to_string(), Tone::User, true, false));
            v.push(make_span(t.clone(), Tone::User, false, false));
        },
        ChatItem::Assistant(t) => {
            v.push(make_span("\u{25c6} ".to_string(), Tone::Assistant, true, false));
            v.push(make_span(t.clone(), Tone::Assistant, false, false));
        },
        ChatItem::ToolCall { name, args } => {
            v.push(make_span("\u{25b8} ".to_string(), Tone::Tool, false, false));
            v.push(make_span(concat(name.as_str(), " "), Tone::Tool, true, false));
            v.push(make_span(args.clone(), Tone::Tool, false, true));
        },
        ChatItem::ToolResult { name, result } => {
            v.push(make_span("\u{25c2} ".to_string(), Tone::Tool, false, false));
            v.push(make_span(concat(name.as_str(), " \u{2192} "), Tone::Tool, true, false));
            v.push(make_span(result.clone(), Tone::Tool, false, false));
        },
        ChatItem::Error(t) => {
            v.push(make_span("! ".to_string(), Tone::Error, true, false));
            v.push(make_span(t.clone(), Tone::Error, false, false));
        },
        ChatItem::Status(t) => {
            v.push(make_span("\u{2026} ".to_string(), Tone::Status, false, false));
            v.push(make_span(t.clone(), Tone::Status, false, true));
        },
    }
    assert(line_view(v@) =~= item_line(item@));
    v
}

/// The lines of the chat pane (see `chat_lines_of`).
pub fn chat_lines(items: &[ChatItem]) -> (r: Vec<Vec<StyledSpan>>)
    ensures
        lines_view(r@) == chat_lines_of(items@.map_values(|m: ChatItem| m@)),
{
    let ghost all = items@.map_values(|m: ChatItem| m@);
    let mut out: Vec<Vec<StyledSpan>> = Vec::new();
    let mut i: usize = 0;
    while i < items.len()
        invariant
            i <= items@.len(),
            all == items@.map_values(|m: ChatItem| m@),
            lines_view(out@) == chat_lines_of(all.take(i as int)),
        decreases items@.len() - i,
    {
        proof {
            assert(all.take(i + 1).drop_last() =~= all.take(i as int));
            assert(all.take(i + 1).last() == items@[i as int]@);
        }
        let line = chat_item_line(&items[i]);
        let ghost before = out@;
        out.push(line);
        let empty: Vec<StyledSpan> = Vec::new();
        assert(line_view(empty@) =~= Seq::<SpanView>::empty());
        out.push(empty);
        assert(lines_view(out@) =~= lines_view(before).push(item_line(items@[i as int]@)).push(
            Seq::empty(),
        ));
        i = i + 1;
    }
    assert(all.take(items@.len() as int) =~= all);
    out
}

/// The first visible line: the scroll offset, but no further than the last
/// line.
pub open spec fn first_visible(total: nat, scroll: nat) -> nat {
    let last = if total == 0 { 0 } else { (total - 1) as nat };
    if scroll <= last { scroll } else { last }
}

/// The lines of the chat pane that fit a pane `height` lines high when
/// scrolled by `scroll` lines.
pub open spec fn visible_lines(lines: Seq<Seq<SpanView>>, scroll: nat, height: nat) -> Seq<Seq<SpanView>> {
    let rest = lines.skip(first_visible(lines.len(), scroll) as int);
    if rest.len() <= height {
        rest
    } else {
        rest.take(height as int)
    }
}

/// What the chat pane shows of `items`, scrolled by `scroll` lines, in a
/// pane `height` lines high.
pub fn chat_view(items: &[ChatItem], scroll: usize, height: u16) -> (r: Vec<Vec<StyledSpan>>)
    ensures
        lines_view(r@) == visible_lines(
            chat_lines_of(items@.map_values(|m: ChatItem| m@)),
            scroll as nat,
            height as nat,
        ),
{
    let lines = chat_lines(items);
    let ghost all = lines_view(lines@);
    let total = lines.len();
    let last = if total == 0 {
        0
    } else {
        total - 1
    };
    let start = if scroll <= last {
        scroll
    } else {
        last
    };
    let mut out: Vec<Vec<StyledSpan>> = Vec::new();
    let mut i: usize = start;
    let h = height as usize;
    let mut taken: usize = 0;
    while i < total && taken < h
        invariant
            start <= i <= total,
            total == lines@.len(),
            all == lines_view(lines@),
            taken == i - start,
            taken <= h,
            lines_view(out@) == all.skip(start as int).take(taken as int),
        decreases total - i,
    {
        let ghost before = out@;
        out.push(copy_line(&lines[i]));
        assert(lines_view(out@) =~= all.skip(start as int).take(taken + 1)) by {
            assert(lines_view(out@) =~= lines_view(before).push(line_view(lines@[i as int]@)));
        }
        i = i + 1;
        taken = taken + 1;
    }
    proof {
        let rest = all.skip(start as int);
        if rest.len() <= h {
            assert(rest.take(taken as int) =~= rest);
        }
    }
    out
}

/// A copy of a line.
fn copy_line(l: &Vec<StyledSpan>) -> (r: Vec<StyledSpan>)
    ensures
        line_view(r@) == line_view(l@),
{
    let mut out: Vec<StyledSpan> = Vec::new();
    let mut i: usize = 0;
    while i < l.len()
        invariant
            i <= l@.len(),
            line_view(out@) == line_view(l@).take(i as int),
        decreases l@.len() - i,
    {
        let ghost before = out@;
        let c = l[i].clone();
        assert(c@ == l@[i as int]@);
        out.push(c);
        assert(line_view(out@) =~= line_view(before).push(c@));
        assert(line_view(l@).take(i + 1) =~= line_view(l@).take(i as int).push(l@[i as int]@));
        i = i + 1;
    }
    assert(line_view(l@).take(l@.len() as int) =~= line_view(l@));
    out
}

impl Clone for StyledSpan {
    fn clone(&self) -> (r: Self)
        ensures
            r@ == self@,
    {
        StyledSpan { text: self.text.clone(), tone: self.tone, bold: self.bold, italic: self.italic }
    }
}

/// The label of the focused pane in the status bar.
pub open spec fn focus_label_of(focus: Focus) -> Seq<char> {
    match focus {
        Focus::Chat => "CHAT"@,
        Focus::Terminal => "TERM"@,
        Focus::Input => "INPUT"@,
    }
}

/// The status bar: the focused pane's label in brackets, in bold accent,
/// then the status text.
pub open spec fn status_line(status: Seq<char>, focus: Focus) -> Seq<SpanView> {
    seq![
        span(" ["@ + focus_label_of(focus) + "] "@, Tone::Accent, true, false),
        span(" "@ + status + " "@, Tone::Status, false, false),
    ]
}

/// The status bar (see `status_line`).
pub fn status_bar(status: &str, focus: Focus) -> (r: Vec<StyledSpan>)
    ensures
        line_view(r@) == status_line(status@, focus),
{
    proof {
        reveal_strlit("CHAT");
        reveal_strlit("TERM");
        reveal_strlit("INPUT");
        reveal_strlit(" [");
        reveal_strlit("] ");
        reveal_strlit(" ");
    }
    let label = match focus {
        Focus::Chat => "CHAT",
        Focus::Terminal => "TERM",
        Focus::Input => "INPUT",
    };
    let mut a = " [".to_string();
    a.append(label);
    a.append("] ");
    let mut b = " ".to_string();
    b.append(status);
    b.append(" ");
    let mut v: Vec<StyledSpan> = Vec::new();
    v.push(make_span(a, Tone::Accent, true, false));
    v.push(make_span(b, Tone::Status, false, false));
    assert(line_view(v@) =~= status_line(status@, focus));
    v
}

/// The column of the input cursor: the cursor's position (at most the
/// input's length, and taken modulo 2^16 as a terminal column) from the
/// pane's left edge, but no further than its last column.
pub open spec fn cursor_column(cursor: nat, input_len: nat, x: nat, width: nat) -> nat {
    let c = (if cursor <= input_len { cursor } else { input_len }) % 65536;
    let last = if width == 0 { 0 } else { (width - 1) as nat };
    x + if c <= last { c } else { last }
}

/// The column of the input cursor (see `cursor_column`).
pub fn input_cursor_x(cursor: usize, input_len: usize, x: u16, width: u16) -> (r: u16)
    requires
        x + width <= u16::MAX,
    ensures
        r as nat == cursor_column(cursor as nat, input_len as nat, x as nat, width as nat),
{
    let c = if cursor <= input_len {
        cursor
    } else {
        input_len
    };
    let c16 = (c % 65536) as u16;
    let last = if width == 0 {
        0
    } else {
        width - 1
    };
    x + if c16 <= last {
        c16
    } else {
        last
    }
}

/// A terminal colour.
#[derive(Debug, Clone, Copy, PartialEq, Eq, Structural)]
pub enum TermColor {
    Default,
    Indexed(u8),
    Rgb(u8, u8, u8),
}

/// The attributes of a terminal cell.
#[derive(Debug, Clone, Copy, PartialEq, Eq, Structural)]
pub struct CellAttrs {
    pub fg: TermColor,
    pub bg: TermColor,
    pub inverse: bool,
    pub bold: bool,
    pub italic: bool,
    pub underline: bool,
    pub dim: bool,
}

/// How a terminal cell is drawn.
#[derive(Debug, Clone, Copy, PartialEq, Eq, Structural)]
pub struct CellStyle {
    pub fg: TermColor,
    pub bg: TermColor,
    pub bold: bool,
    pub italic: bool,
    pub underlined: bool,
    pub dim: bool,
}

/// How a cell is drawn: in its colours, swapped when it is inverse, with
/// its emphasis.
pub fn cell_style(a: CellAttrs) -> (r: CellStyle)
    ensures
        r.fg == (if a.inverse { a.bg } else { a.fg }),
        r.bg == (if a.inverse { a.fg } else { a.bg }),
        r.bold == a.bold,
        r.italic == a.italic,
        r.underlined == a.underline,
        r.dim == a.dim,
{
    let (fg, bg) = if a.inverse {
        (a.bg, a.fg)
    } else {
        (a.fg, a.bg)
    };
    CellStyle { fg, bg, bold: a.bold, italic: a.italic, underlined: a.underline, dim: a.dim }
}

/// The screen rows the terminal pane shows, top down: as many as both the
/// screen and the pane have, each shifted down by the scroll offset but
/// no further than the screen's last row.
pub open spec fn shown_rows(rows: nat, height: nat, scroll: nat) -> Seq<nat> {
    let n = if rows <= height { rows } else { height };
    Seq::new(n, |i: int| if i + scroll <= rows - 1 { (i + scroll) as nat } else { (rows - 1) as nat })
}

/// The screen rows the terminal pane shows (see `shown_rows`).
pub fn terminal_rows(rows: u16, height: u16, scroll: usize) -> (r: Vec<u16>)
    ensures
        r@.map_values(|x: u16| x as nat) == shown_rows(rows as nat, height as nat, scroll as nat),
{
    let n = if rows <= height {
        rows
    } else {
        height
    };
    let mut out: Vec<u16> = Vec::new();
    let mut i: u16 = 0;
    while i < n
        invariant
            i <= n,
            n <= rows,
            n as nat == (if rows <= height { rows } else { height }),
            out@.map_values(|x: u16| x as nat) == shown_rows(rows as nat, height as nat, scroll as nat).take(
                i as int,
            ),
        decreases n - i,
    {
        let last = (rows - 1) as usize;
        let row = if (i as usize) <= last && scroll <= last - (i as usize) {
            (i as usize + scroll) as u16
        } else {
            rows - 1
        };
        let ghost before = out@;
        assert(row as nat == shown_rows(rows as nat, height as nat, scroll as nat)[i as int]);
        out.push(row);
        proof {
            let shown = shown_rows(rows as nat, height as nat, scroll as nat);
            assert(out@.map_values(|x: u16| x as nat) =~= before.map_values(|x: u16| x as nat).push(row as nat));
            assert(shown.take(i + 1) =~= shown.take(i as int).push(shown[i as int]));
        }
        i = i + 1;
    }
    assert(shown_rows(rows as nat, height as nat, scroll as nat).take(n as int) =~= shown_rows(
        rows as nat,
        height as nat,
        scroll as nat,
    ));
    out
}

} // verus!
