//! Turning markdown into styled lines and placing them on a report page.
//! Writing the PDF file itself is left to the application.
use vstd::prelude::*;
use pulldown_cmark::{Event, Tag, TagEnd};
use crate::text::{chars_of, string_of, trim_chars, trimmed};

verus! {

broadcast use vstd::string::group_string_axioms;

/// How a line of the report is set.
#[derive(Debug, Clone, Copy, PartialEq, Eq, Structural)]
pub enum LineStyle {
    Normal,
    H1,
    H2,
    Code,
}

/// A markdown event, as far as the page layout reads it.
#[derive(Debug, Clone, PartialEq, Eq)]
pub enum MdEvent {
    /// The start of a heading of the given level (1 to 6).
    HeadingStart(u8),
    CodeBlockStart,
    HeadingEnd,
    CodeBlockEnd,
    Text(String),
    Code(String),
    SoftBreak,
    HardBreak,
    /// The end of a paragraph or of a list item: a block of text ends.
    BlockEnd,
    /// Any event the layout ignores.
    Other,
}

/// The abstract value of a markdown event.
pub enum MdEventView {
    HeadingStart(u8),
    CodeBlockStart,
    HeadingEnd,
    CodeBlockEnd,
    Text(Seq<char>),
    Code(Seq<char>),
    SoftBreak,
    HardBreak,
    BlockEnd,
    Other,
}

impl View for MdEvent {
    type V = MdEventView;

    open spec fn view(&self) -> MdEventView {
        match self {
            MdEvent::HeadingStart(l) => MdEventView::HeadingStart(*l),
            MdEvent::CodeBlockStart => MdEventView::CodeBlockStart,
            MdEvent::HeadingEnd => MdEventView::HeadingEnd,
            MdEvent::CodeBlockEnd => MdEventView::CodeBlockEnd,
            MdEvent::Text(t) => MdEventView::Text(t@),
            MdEvent::Code(t) => MdEventView::Code(t@),
            MdEvent::SoftBreak => MdEventView::SoftBreak,
            MdEvent::HardBreak => MdEventView::HardBreak,
            MdEvent::BlockEnd => MdEventView::BlockEnd,
            MdEvent::Other => MdEventView::Other,
        }
    }
}

/// The abstract values of a list of events.
pub open spec fn events_view(s: Seq<MdEvent>) -> Seq<MdEventView> {
    s.map_values(|e: MdEvent| e@)
}

/// The events that pulldown-cmark's parser yields for a markdown text.
pub uninterp spec fn markdown_events(text: Seq<char>) -> Seq<MdEventView>;

/// Runs `pulldown_cmark::Parser` over `text` and records each event it
/// yields, in order. Nothing is claimed of the events beyond that they are
/// the parser's, a function of the text alone.
#[verifier::external_body]
fn markdown_event_list(text: &str) -> (r: Vec<MdEvent>)
    ensures
        events_view(r@) == markdown_events(text@),
{
    pulldown_cmark::Parser::new(text)
        .map(|event| match event {
            Event::Start(Tag::Heading { level, .. }) => MdEvent::HeadingStart(level as u8),
            Event::Start(Tag::CodeBlock(_)) => MdEvent::CodeBlockStart,
            Event::End(TagEnd::Heading(_)) => MdEvent::HeadingEnd,
            Event::End(TagEnd::CodeBlock) => MdEvent::CodeBlockEnd,
            Event::Text(t) => MdEvent::Text(t.to_string()),
            Event::Code(c) => MdEvent::Code(c.to_string()),
            Event::SoftBreak => MdEvent::SoftBreak,
            Event::HardBreak => MdEvent::HardBreak,
            Event::End(TagEnd::Paragraph) => MdEvent::BlockEnd,
            Event::End(TagEnd::Item) => MdEvent::BlockEnd,
            _ => MdEvent::Other,
        })
        .collect()
}

/// Lines so far, the text being gathered, and the style it will get.
pub type LayoutState = (Seq<(LineStyle, Seq<char>)>, Seq<char>, LineStyle);

/// `lines` with the gathered text added, trimmed, when there is any.
pub open spec fn flushed(lines: Seq<(LineStyle, Seq<char>)>, cur: Seq<char>, style: LineStyle) -> Seq<
    (LineStyle, Seq<char>),
> {
    if cur.len() > 0 {
        lines.push((style, trimmed(cur)))
    } else {
        lines
    }
}

/// The effect of one event: a heading or code block starts a new line in
/// its style, its end closes the line and returns to normal text, the end
/// of a paragraph or list item closes the line, text and inline code are
/// gathered, and a line break becomes a space.
pub open spec fn layout_step(st: LayoutState, e: MdEventView) -> LayoutState {
    let (lines, cur, style) = st;
    match e {
        MdEventView::HeadingStart(level) => (
            flushed(lines, cur, style),
            Seq::empty(),
            if level == 1 {
                LineStyle::H1
            } else {
                LineStyle::H2
            },
        ),
        MdEventView::CodeBlockStart => (flushed(lines, cur, style), Seq::empty(), LineStyle::Code),
        MdEventView::HeadingEnd => (flushed(lines, cur, style), Seq::empty(), LineStyle::Normal),
        MdEventView::CodeBlockEnd => (flushed(lines, cur, style), Seq::empty(), LineStyle::Normal),
        MdEventView::Text(t) => (lines, cur + t, style),
        MdEventView::Code(t) => (lines, cur + t, style),
        MdEventView::SoftBreak => (lines, cur.push(' '), style),
        MdEventView::HardBreak => (lines, cur.push(' '), style),
        MdEventView::BlockEnd => (flushed(lines, cur, style), Seq::empty(), style),
        MdEventView::Other => st,
    }
}

/// The layout state after a list of events.
pub open spec fn layout_state(events: Seq<MdEventView>) -> LayoutState
    decreases events.len(),
{
    if events.len() == 0 {
        (Seq::empty(), Seq::empty(), LineStyle::Normal)
    } else {
        layout_step(layout_state(events.drop_last()), events.last())
    }
}

/// The styled lines of a list of events: the final state, with the text
/// still gathered added as a last line.
pub open spec fn styled_lines(events: Seq<MdEventView>) -> Seq<(LineStyle, Seq<char>)> {
    let (lines, cur, style) = layout_state(events);
    flushed(lines, cur, style)
}

/// The abstract value of a list of styled lines.
pub open spec fn lines_view(s: Seq<(LineStyle, String)>) -> Seq<(LineStyle, Seq<char>)> {
    s.map_values(|p: (LineStyle, String)| (p.0, p.1@))
}

/// Appends the characters of `t` to `cur`.
fn append_text(cur: &mut Vec<char>, t: &String)
    ensures
        final(cur)@ == old(cur)@ + t@,
{
    let cs = chars_of(t.as_str());
    let mut i: usize = 0;
    let ghost start = cur@;
    while i < cs.len()
        invariant
            i <= cs@.len(),
            cs@ == t@,
            cur@ == start + cs@.take(i as int),
        decreases cs@.len() - i,
    {
        cur.push(cs[i]);
        i = i + 1;
        assert(cur@ =~= start + cs@.take(i as int));
    }
    assert(cs@.take(cs@.len() as int) =~= cs@);
}

/// Adds the gathered text as a line, trimmed, when there is any, and
/// empties it.
fn flush(lines: &mut Vec<(LineStyle, String)>, cur: &mut Vec<char>, style: LineStyle)
    ensures
        lines_view(final(lines)@) == flushed(lines_view(old(lines)@), old(cur)@, style),
        final(cur)@ == Seq::<char>::empty(),
{
    if cur.len() > 0 {
        let t = trim_chars(cur.as_slice());
        let s = string_of(t.as_slice());
        let ghost before = lines@;
        lines.push((style, s));
        assert(lines_view(lines@) =~= lines_view(before).push((style, trimmed(old(cur)@))));
        cur.clear();
    } else {
        assert(cur@ =~= Seq::<char>::empty());
    }
}

/// The styled lines of a list of markdown events (see `styled_lines`).
pub fn lines_from_events(events: &Vec<MdEvent>) -> (r: Vec<(LineStyle, String)>)
    ensures
        lines_view(r@) == styled_lines(events_view(events@)),
{
    let mut lines: Vec<(LineStyle, String)> = Vec::new();
    let mut cur: Vec<char> = Vec::new();
    let mut style = LineStyle::Normal;
    let ghost evs = events_view(events@);
    let mut i: usize = 0;
    assert(lines_view(lines@) =~= Seq::<(LineStyle, Seq<char>)>::empty());
    assert(cur@ =~= Seq::<char>::empty());
    while i < events.len()
        invariant
            i <= events@.len(),
            evs == events_view(events@),
            layout_state(evs.take(i as int)) == (lines_view(lines@), cur@, style),
        decreases events@.len() - i,
    {
        proof {
            assert(evs.take(i + 1).drop_last() =~= evs.take(i as int));
            assert(evs.take(i + 1).last() == events@[i as int]@);
        }
        match &events[i] {
            MdEvent::HeadingStart(level) => {
                flush(&mut lines, &mut cur, style);
                style = if *level == 1 {
                    LineStyle::H1
                } else {
                    LineStyle::H2
                };
            },
            MdEvent::CodeBlockStart => {
                flush(&mut lines, &mut cur, style);
                style = LineStyle::Code;
            },
            MdEvent::HeadingEnd => {
                flush(&mut lines, &mut cur, style);
                style = LineStyle::Normal;
            },
            MdEvent::CodeBlockEnd => {
                flush(&mut lines, &mut cur, style);
                style = LineStyle::Normal;
            },
            MdEvent::Text(t) => {
                append_text(&mut cur, t);
            },
            MdEvent::Code(t) => {
                append_text(&mut cur, t);
            },
            MdEvent::SoftBreak => {
                cur.push(' ');
            },
            MdEvent::HardBreak => {
                cur.push(' ');
            },
            MdEvent::BlockEnd => {
                flush(&mut lines, &mut cur, style);
            },
            MdEvent::Other => {},
        }
        i = i + 1;
    }
    proof {
        assert(evs.take(events@.len() as int) =~= evs);
    }
    flush(&mut lines, &mut cur, style);
    lines
}

/// The point size a line is set in.
pub open spec fn size_of_style(style: LineStyle) -> nat {
    match style {
        LineStyle::H1 => 18,
        LineStyle::H2 => 14,
        LineStyle::Code => 9,
        LineStyle::Normal => 11,
    }
}

/// The lowest baseline a line may start on.
pub const PAGE_BOTTOM: u32 = 50;

/// The baseline of the first line.
pub const PAGE_TOP: u32 = 750;

/// Where lines go on the page: starting at baseline `y`, each line is set
/// while `y` is not below the bottom margin, and the next line goes its
/// size plus four points lower. Each entry is the line's style, text, size
/// and baseline.
pub open spec fn placed(lines: Seq<(LineStyle, Seq<char>)>, y: int) -> Seq<
    (LineStyle, Seq<char>, nat, int),
>
    decreases lines.len(),
{
    if lines.len() == 0 || y < PAGE_BOTTOM {
        Seq::empty()
    } else {
        let size = size_of_style(lines[0].0);
        seq![(lines[0].0, lines[0].1, size, y)] + placed(lines.drop_first(), y - size - 4)
    }
}

/// A line set on the page.
#[derive(Debug, Clone, PartialEq, Eq)]
pub struct PlacedLine {
    pub style: LineStyle,
    pub text: String,
    /// Point size.
    pub size: u32,
    /// Baseline, in points from the bottom of the page.
    pub y: u32,
}

/// The abstract value of a list of placed lines.
pub open spec fn placed_view(s: Seq<PlacedLine>) -> Seq<(LineStyle, Seq<char>, nat, int)> {
    s.map_values(|p: PlacedLine| (p.style, p.text@, p.size as nat, p.y as int))
}

/// The size of a line's style.
pub fn font_size(style: LineStyle) -> (r: u32)
    ensures
        r as nat == size_of_style(style),
{
    match style {
        LineStyle::H1 => 18,
        LineStyle::H2 => 14,
        LineStyle::Code => 9,
        LineStyle::Normal => 11,
    }
}

/// Layout keeps to the page: the lines placed are the first lines, in
/// order and unchanged, each at a baseline no lower than the bottom margin
/// and no higher than the first.
pub proof fn law_layout_within_page(lines: Seq<(LineStyle, Seq<char>)>, y: int)
    ensures
        placed(lines, y).len() <= lines.len(),
        forall|i: int|
            0 <= i < placed(lines, y).len() ==> {
                let p = #[trigger] placed(lines, y)[i];
                &&& p.0 == lines[i].0
                &&& p.1 == lines[i].1
                &&& p.2 == size_of_style(lines[i].0)
                &&& PAGE_BOTTOM <= p.3 <= y
            },
    decreases lines.len(),
{
    if lines.len() > 0 && y >= PAGE_BOTTOM {
        let rest = lines.drop_first();
        let y2 = y - size_of_style(lines[0].0) - 4;
        law_layout_within_page(rest, y2);
        let p = placed(lines, y);
        assert forall|i: int| 0 <= i < p.len() implies {
            let q = #[trigger] p[i];
            &&& q.0 == lines[i].0
            &&& q.1 == lines[i].1
            &&& q.2 == size_of_style(lines[i].0)
            &&& PAGE_BOTTOM <= q.3 <= y
        } by {
            if i > 0 {
                assert(p[i] == placed(rest, y2)[i - 1]);
                assert(rest[i - 1] == lines[i]);
            }
        }
    }
}

/// A markdown-to-PDF report writer.
pub struct PdfGenerator;

impl PdfGenerator {
    pub fn new() -> (r: PdfGenerator)
        ensures
            r == PdfGenerator,
    {
        PdfGenerator
    }

    /// The styled lines of a markdown text: one line per heading, code
    /// block, paragraph or list item; headings of level one in `H1`, other
    /// headings in `H2`, code blocks in `Code` and the rest in `Normal`.
    /// Each line is its gathered text trimmed; a block that gathered no text
    /// gives no line.
    pub fn parse_markdown(text: &str) -> (r: Vec<(LineStyle, String)>)
        ensures
            lines_view(r@) == styled_lines(markdown_events(text@)),
    {
        let events = markdown_event_list(text);
        lines_from_events(&events)
    }

    /// Places styled lines on a page, top down from the first baseline
    /// (see `placed`); lines that no longer fit are left off.
    pub fn layout(lines: &Vec<(LineStyle, String)>) -> (r: Vec<PlacedLine>)
        ensures
            placed_view(r@) == placed(lines_view(lines@), PAGE_TOP as int),
    {
        let mut out: Vec<PlacedLine> = Vec::new();
        let mut y: u32 = PAGE_TOP;
        let mut i: usize = 0;
        let ghost all = lines_view(lines@);
        assert(placed_view(out@) =~= Seq::<(LineStyle, Seq<char>, nat, int)>::empty());
        assert(all.skip(0) =~= all);
        assert(placed_view(out@) + placed(all, PAGE_TOP as int) =~= placed(all, PAGE_TOP as int));
        while i < lines.len() && y >= PAGE_BOTTOM
            invariant
                i <= lines@.len(),
                all == lines_view(lines@),
                y <= PAGE_TOP,
                placed(all, PAGE_TOP as int) == placed_view(out@) + placed(all.skip(i as int), y as int),
            decreases lines@.len() - i,
        {
            let style = lines[i].0;
            let size = font_size(style);
            let text = lines[i].1.clone();
            proof {
                let rest = all.skip(i as int);
                assert(rest[0] == all[i as int]);
                assert(rest.drop_first() =~= all.skip(i + 1));
            }
            let ghost before = out@;
            out.push(PlacedLine { style, text, size, y });
            assert(placed_view(out@) =~= placed_view(before).push((style, lines@[i as int].1@, size as nat, y as int)));
            proof {
                let rest = all.skip(i as int);
                let head = seq![(rest[0].0, rest[0].1, size_of_style(rest[0].0), y as int)];
                assert(placed(rest, y as int) == head + placed(rest.drop_first(), y - size - 4));
                assert(placed_view(before).push((style, lines@[i as int].1@, size as nat, y as int))
                    =~= placed_view(before) + head);
            }
            y = y - size - 4;
            i = i + 1;
        }
        proof {
            assert(placed(all.skip(i as int), y as int) =~= Seq::<(LineStyle, Seq<char>, nat, int)>::empty());
        }
        out
    }
}

} // verus!
