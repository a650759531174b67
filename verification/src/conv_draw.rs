//! How a conversation is painted.
//!
//! The toolkit says which bubbles are visible and how wide each piece of text is; this says what is
//! painted where. A line is walked in runs, each at the pen the one before left, so that a link that
//! wraps is underlined on both lines without anything having to know that it did.

use crate::conv::{ConvView, Conversation, Focus};
use crate::labels;
use crate::labels::{media_label, Atlas};
use crate::model::{Chat, ChatView, Delivery, Message, MessageView};
use crate::transcript;
use crate::transcript::{
    runs, Laid, LaidView, Line, Run, Span, BUBBLE_HPAD, BUBBLE_VPAD, MEDIA_GAP,
};
use crate::ui;
use crate::ui::{
    copy_words, halved_wide, paint, xywh, Align, Font, Frame, Ink, Op, OpView, Rect, Surface,
};
use vstd::prelude::*;
use vstd::string::*;

verus! {

/// What the toolkit says of the sizes a conversation is drawn with.
#[derive(Clone, Copy, Debug, PartialEq, Eq, Structural)]
pub struct ConvLook {
    /// The inset of a row.
    pub pad: i32,
    /// How tall a line of the body font is.
    pub body_h: i32,
    /// How far the baseline of the body font is below its top.
    pub body_ascent: i32,
    /// How wide what the composer shows before its caret is.
    pub caret_w: i32,
}

impl ConvLook {
    /// Whether no size is negative.
    pub open spec fn sound(self) -> bool {
        0 <= self.pad && 0 <= self.body_h && 0 <= self.body_ascent && 0 <= self.caret_w
    }
}

/// What the toolkit measured of one bubble.
#[derive(Debug)]
pub struct BubbleMeasure {
    /// How wide the label of its media is.
    pub label_w: i32,
    /// How wide the time is.
    pub time_w: i32,
    /// How wide the ticks are.
    pub state_w: i32,
    /// For each line, how wide each of its runs is.
    pub run_w: Vec<Vec<i32>>,
}

// ---- a line ---------------------------------------------------------------------------------------

/// How wide some runs are together.
pub open spec fn total(w: Seq<i32>) -> int
    decreases w.len(),
{
    if w.len() == 0 {
        0
    } else {
        total(w.drop_last()) + w.last()
    }
}

/// Whether some widths are the widths of the runs of a line.
pub open spec fn widths_fit(w: Seq<i32>, line: Line, links: Seq<Span>) -> bool {
    &&& w.len() == transcript::runs_from(line.start, line.end, links, 0).len()
    &&& forall|i: int| 0 <= i < w.len() ==> 0 <= #[trigger] w[i]
}

/// Whether every coordinate of a painted line can be said in a number.
pub open spec fn line_fits(w: Seq<i32>, x0: int, y: int, look: ConvLook) -> bool {
    &&& i32::MIN <= x0 - 1
    &&& x0 + total(w) + 1 <= i32::MAX
    &&& y + look.body_h <= i32::MAX
    &&& y + look.body_ascent + 1 <= i32::MAX
}

/// One run as it is painted. The link that has the cursor is inverted: a colour alone reads as
/// emphasis, and does not say what a press would open.
pub open spec fn run_ops(
    run: Run,
    text: Seq<char>,
    pen: int,
    w: int,
    y: int,
    look: ConvLook,
    focus: Option<usize>,
    fg: Ink,
) -> Seq<OpView> {
    let words = text.subrange(run.start as int, run.end as int);
    let baseline = y + look.body_ascent;
    let at = |ink: Ink|
        OpView::TextAt {
            x: pen as i32,
            baseline: baseline as i32,
            text: words,
            font: Font::Body,
            ink,
        };
    match run.link {
        None => seq![at(fg)],
        Some(i) => if focus == Some(i) {
            seq![
                OpView::Fill {
                    rect: Rect::edges(pen - 1, y, pen + w + 1, y + look.body_h),
                    ink: Ink::Accent,
                },
                at(Ink::AccentText),
            ]
        } else {
            seq![
                at(Ink::Accent),
                OpView::Rule {
                    y: (baseline + 1) as i32,
                    x0: pen as i32,
                    x1: (pen + w) as i32,
                    ink: Ink::Accent,
                },
            ]
        },
    }
}

/// Some runs as they are painted, each where the one before ended.
pub open spec fn runs_ops(
    r: Seq<Run>,
    w: Seq<i32>,
    text: Seq<char>,
    x0: int,
    y: int,
    look: ConvLook,
    focus: Option<usize>,
    fg: Ink,
) -> Seq<OpView>
    decreases r.len(),
{
    if r.len() == 0 {
        seq![]
    } else {
        let k = r.len() - 1;
        runs_ops(r.drop_last(), w, text, x0, y, look, focus, fg) + run_ops(
            r.last(),
            text,
            x0 + total(w.take(k)),
            w[k] as int,
            y,
            look,
            focus,
            fg,
        )
    }
}

proof fn lemma_total(w: Seq<i32>, k: int)
    requires
        0 <= k <= w.len(),
        forall|i: int| 0 <= i < w.len() ==> 0 <= #[trigger] w[i],
    ensures
        0 <= total(w.take(k)) <= total(w),
        k < w.len() ==> total(w.take(k + 1)) == total(w.take(k)) + w[k],
    decreases w.len(),
{
    if k == w.len() {
        assert(w.take(k) =~= w);
        if k > 0 {
            let shorter = w.drop_last();
            assert forall|i: int| 0 <= i < shorter.len() implies 0 <= #[trigger] shorter[i] by {
                assert(shorter[i] == w[i]);
            }
            lemma_total(shorter, k - 1);
            assert(shorter.take(k - 1) =~= shorter);
        }
    } else {
        let shorter = w.drop_last();
        assert forall|i: int| 0 <= i < shorter.len() implies 0 <= #[trigger] shorter[i] by {
            assert(shorter[i] == w[i]);
        }
        lemma_total(shorter, k);
        assert(shorter.take(k) =~= w.take(k));
        assert(w.take(k + 1).drop_last() =~= w.take(k));
        assert(w.last() == w[w.len() - 1]);
    }
}

fn draw_text_line(
    ops: &mut Vec<Op>,
    text: &String,
    line: &Line,
    links: &Vec<Span>,
    widths: &Vec<i32>,
    x0: i32,
    y: i32,
    look: ConvLook,
    focus: Option<usize>,
    fg: Ink,
)
    requires
        line.start <= line.end <= text@.len(),
        forall|k: int| 0 <= k < links@.len() ==> (#[trigger] links@[k]).start <= links@[k].end,
        widths_fit(widths@, *line, links@),
        look.sound(),
        line_fits(widths@, x0 as int, y as int, look),
    ensures
        ui::op_views(final(ops)@) == ui::op_views(old(ops)@) + runs_ops(
            transcript::runs_from(line.start, line.end, links@, 0),
            widths@,
            text@,
            x0 as int,
            y as int,
            look,
            focus,
            fg,
        ),
{
    let ghost start = ui::op_views(ops@);
    let r = runs(line, links);
    assert(links@.len() == links.len());
    proof {
        transcript::the_runs_of_a_line_tile_it(line.start, line.end, links@, 0);
    }
    let baseline: i32 = y + look.body_ascent;
    let mut pen: i32 = x0;
    let mut i: usize = 0;
    assert(r@.take(0) =~= seq![]);
    assert(widths@.take(0) =~= seq![]);
    proof {
        lemma_ends(r@);
    }
    while i < r.len()
        invariant
            i <= r.len(),
            r@ == transcript::runs_from(line.start, line.end, links@, 0),
            widths_fit(widths@, *line, links@),
            look.sound(),
            line_fits(widths@, x0 as int, y as int, look),
            baseline == y + look.body_ascent,
            pen == x0 + total(widths@.take(i as int)),
            line.end <= text@.len(),
            forall|k: int|
                0 <= k < r@.len() ==> (#[trigger] r@[k]).start <= r@[k].end && r@[k].end
                    <= r@.last().end,
            r@.len() > 0 ==> r@.last().end == line.end,
            ui::op_views(ops@) == start + runs_ops(
                r@.take(i as int),
                widths@,
                text@,
                x0 as int,
                y as int,
                look,
                focus,
                fg,
            ),
        decreases r.len() - i,
    {
        let run = r[i];
        let w: i32 = widths[i];
        proof {
            lemma_total(widths@, i as int);
            lemma_total(widths@, i + 1);
        }
        let ghost before = ui::op_views(ops@);
        assert(r@[i as int] == run);
        let part = text.as_str().substring_char(run.start, run.end);
        let words = part.to_owned();
        match run.link {
            None => {
                paint(ops, Op::TextAt { x: pen, baseline, text: words, font: Font::Body, ink: fg });
            },
            Some(k) => {
                let here: bool = match focus {
                    Some(f) => f == k,
                    None => false,
                };
                if here {
                    paint(
                        ops,
                        Op::Fill {
                            rect: Rect {
                                x0: pen - 1,
                                y0: y,
                                x1: pen + w + 1,
                                y1: y + look.body_h,
                            },
                            ink: Ink::Accent,
                        },
                    );
                    paint(
                        ops,
                        Op::TextAt {
                            x: pen,
                            baseline,
                            text: words,
                            font: Font::Body,
                            ink: Ink::AccentText,
                        },
                    );
                } else {
                    paint(
                        ops,
                        Op::TextAt {
                            x: pen,
                            baseline,
                            text: words,
                            font: Font::Body,
                            ink: Ink::Accent,
                        },
                    );
                    paint(
                        ops,
                        Op::Rule { y: baseline + 1, x0: pen, x1: pen + w, ink: Ink::Accent },
                    );
                }
            },
        }
        let ghost one = run_ops(
            run,
            text@,
            pen as int,
            w as int,
            y as int,
            look,
            focus,
            fg,
        );
        assert(ui::op_views(ops@) =~= before + one);
        assert(r@.take(i + 1).drop_last() =~= r@.take(i as int));
        assert(r@.take(i + 1).last() == run);
        let ghost done = runs_ops(
            r@.take(i as int),
            widths@,
            text@,
            x0 as int,
            y as int,
            look,
            focus,
            fg,
        );
        assert(start + done + one =~= start + (done + one));
        pen = pen + w;
        i += 1;
    }
    assert(r@.take(i as int) =~= r@);
}

/// Each run of a tiled line ends where the last one does, or before.
proof fn lemma_ends(r: Seq<Run>)
    requires
        forall|k: int| 0 < k < r.len() ==> r[k - 1].end == (#[trigger] r[k]).start,
        forall|k: int| 0 <= k < r.len() ==> (#[trigger] r[k]).start <= r[k].end,
    ensures
        forall|k: int| 0 <= k < r.len() ==> (#[trigger] r[k]).end <= r.last().end,
    decreases r.len(),
{
    if r.len() > 1 {
        let s = r.drop_last();
        assert forall|k: int| 0 < k < s.len() implies s[k - 1].end == (#[trigger] s[k]).start by {
            assert(s[k] == r[k] && s[k - 1] == r[k - 1]);
        }
        assert forall|k: int| 0 <= k < s.len() implies (#[trigger] s[k]).start <= s[k].end by {
            assert(s[k] == r[k]);
        }
        lemma_ends(s);
        let last = r.len() - 1;
        assert(r[last - 1].end == r[last].start);
        assert(s.last() == r[last - 1]);
        assert forall|k: int| 0 <= k < r.len() implies (#[trigger] r[k]).end <= r.last().end by {
            if k < last {
                assert(s[k] == r[k]);
            }
        }
    }
}

// ---- a bubble -------------------------------------------------------------------------------------

/// The bubble of a message in its row: at the right for one's own, at the left for the other party's.
pub open spec fn bubble_rect(row: Rect, outgoing: bool, laid: LaidView) -> Rect {
    let h = row.h() - laid.gap;
    if outgoing {
        Rect::boxed(row.x1 - laid.bubble_w, row.y0 as int, laid.bubble_w as int, h)
    } else {
        Rect::boxed(row.x0 as int, row.y0 as int, laid.bubble_w as int, h)
    }
}

/// The inside of a bubble.
pub open spec fn inside(b: Rect) -> Rect {
    Rect::edges(b.x0 + BUBBLE_HPAD, b.y0 + BUBBLE_VPAD, b.x1 - BUBBLE_HPAD, b.y1 - BUBBLE_VPAD)
}

/// The colour of the text in a bubble.
pub open spec fn bubble_ink(outgoing: bool) -> Ink {
    if outgoing {
        Ink::BubbleOut
    } else {
        Ink::BubbleIn
    }
}

/// The media band of a bubble and its label.
pub open spec fn media_ops(
    inner: Rect,
    band: int,
    label: Seq<char>,
    label_w: int,
    look: ConvLook,
    fg: Ink,
) -> Seq<OpView> {
    let ph = Rect::boxed(inner.x0 as int, inner.y0 as int, inner.w(), band);
    let lx = ph.x0 + ui::half(ph.w() - label_w);
    seq![
        OpView::Band { rect: ph },
        OpView::TextAt {
            x: transcript::max(lx, ph.x0 + 4) as i32,
            baseline: (ph.y0 + ui::half(ph.h() - look.body_h) + look.body_ascent) as i32,
            text: label,
            font: Font::Body,
            ink: fg,
        },
    ]
}

/// Some lines as they are painted, one below the other.
pub open spec fn lines_ops(
    lines: Seq<Line>,
    links: Seq<Span>,
    w: Seq<Vec<i32>>,
    text: Seq<char>,
    x0: int,
    y0: int,
    look: ConvLook,
    focus: Option<usize>,
    fg: Ink,
) -> Seq<OpView>
    decreases lines.len(),
{
    if lines.len() == 0 {
        seq![]
    } else {
        let k = lines.len() - 1;
        let line = lines.last();
        lines_ops(lines.drop_last(), links, w, text, x0, y0, look, focus, fg) + runs_ops(
            transcript::runs_from(line.start, line.end, links, 0),
            w[k]@,
            text,
            x0,
            y0 + k * look.body_h,
            look,
            focus,
            fg,
        )
    }
}

/// The colour of what is said about a message.
pub open spec fn meta_ink(outgoing: bool) -> Ink {
    if outgoing {
        Ink::MetaOut
    } else {
        Ink::Dim
    }
}

/// The colour of the ticks of a message of one's own.
pub open spec fn tick_ink(state: Delivery) -> Ink {
    match state {
        Delivery::Failed => Ink::Unread,
        Delivery::Read => Ink::AccentText,
        _ => Ink::MetaOut,
    }
}

/// The time of a message, behind it its ticks where it is one's own.
pub open spec fn meta_ops(
    inner: Rect,
    y: int,
    m: MessageView,
    time_w: int,
    state_w: int,
    look: ConvLook,
) -> Seq<OpView> {
    let ticks = if m.outgoing {
        seq![
            OpView::Text {
                rect: Rect::edges(inner.x1 - state_w, y, inner.x1 as int, y + look.body_h),
                text: m.state.ticks(),
                font: Font::Small,
                ink: tick_ink(m.state),
                align: Align::End,
            },
        ]
    } else {
        seq![]
    };
    let right = inner.x1 - if m.outgoing {
        state_w + 3
    } else {
        0
    };
    ticks + seq![
        OpView::Text {
            rect: Rect::edges(right - time_w, y, right, y + look.body_h),
            text: m.time,
            font: Font::Small,
            ink: meta_ink(m.outgoing),
            align: Align::End,
        },
    ]
}

/// The ground of a bubble, and its outline where the cursor is on it.
pub open spec fn ground_ops(b: Rect, outgoing: bool, focused: bool) -> Seq<OpView> {
    let ground = seq![
        OpView::Round {
            rect: b,
            surface: if outgoing {
                Surface::BubbleOut
            } else {
                Surface::BubbleIn
            },
        },
    ];
    if focused {
        ground.push(OpView::Stroke { rect: b, ink: Ink::Accent })
    } else {
        ground
    }
}

/// The media band of a bubble, where it has one.
pub open spec fn band_ops(
    inner: Rect,
    m: MessageView,
    laid: LaidView,
    look: ConvLook,
    x: BubbleMeasure,
    glyphs: Seq<char>,
    fg: Ink,
) -> Seq<OpView> {
    match m.media {
        Some(media) => media_ops(
            inner,
            laid.band(),
            labels::label_words(media, glyphs),
            x.label_w as int,
            look,
            fg,
        ),
        None => seq![],
    }
}

/// A bubble as it is painted.
pub open spec fn bubble_ops(
    row: Rect,
    m: MessageView,
    laid: LaidView,
    focused: bool,
    link: Option<usize>,
    look: ConvLook,
    x: BubbleMeasure,
    glyphs: Seq<char>,
) -> Seq<OpView> {
    let b = bubble_rect(row, m.outgoing, laid);
    let inner = inside(b);
    let fg = bubble_ink(m.outgoing);
    let top = inner.y0 + if m.media is Some {
        laid.band() + MEDIA_GAP
    } else {
        0
    };
    ground_ops(b, m.outgoing, focused) + band_ops(inner, m, laid, look, x, glyphs, fg) + lines_ops(
        laid.lines,
        laid.links,
        x.run_w@,
        m.text,
        inner.x0 as int,
        top,
        look,
        link,
        fg,
    ) + meta_ops(
        inner,
        inner.y0 + laid.meta_at(look.body_h as int),
        m,
        x.time_w as int,
        x.state_w as int,
        look,
    )
}

/// The left edge of a bubble in its row.
pub open spec fn bubble_left(row: Rect, outgoing: bool, laid: LaidView) -> int {
    if outgoing {
        row.x1 - laid.bubble_w
    } else {
        row.x0 as int
    }
}

/// Where the text of a bubble begins: under its media band, where there is one.
pub open spec fn text_top(row: Rect, m: MessageView, laid: LaidView) -> int {
    row.y0 + BUBBLE_VPAD + if m.media is Some {
        laid.band() + MEDIA_GAP
    } else {
        0
    }
}

/// Whether every coordinate of a painted bubble but those of its text can be said in a number.
pub open spec fn bubble_fits(
    row: Rect,
    m: MessageView,
    laid: LaidView,
    look: ConvLook,
    x: BubbleMeasure,
) -> bool {
    let left = bubble_left(row, m.outgoing, laid);
    let inner_right = left + laid.bubble_w - BUBBLE_HPAD;
    let ticks = if m.outgoing {
        x.state_w + 3
    } else {
        0
    };
    let meta = laid.meta_at(look.body_h as int);
    let label = ui::half(laid.band() - look.body_h) + look.body_ascent;
    &&& row.h() <= i32::MAX
    &&& i32::MIN <= left
    &&& left + laid.bubble_w <= i32::MAX
    &&& left + BUBBLE_HPAD <= i32::MAX
    &&& i32::MIN <= inner_right - ticks - x.time_w
    &&& row.y0 + BUBBLE_VPAD <= i32::MAX
    &&& i32::MIN <= row.y1 - laid.gap - BUBBLE_VPAD
    &&& meta <= i32::MAX
    &&& row.y0 + BUBBLE_VPAD + meta + look.body_h <= i32::MAX
    &&& m.media is Some ==> {
        &&& left + BUBBLE_HPAD + 4 <= i32::MAX
        &&& text_top(row, m, laid) <= i32::MAX
        &&& i32::MIN <= row.y0 + BUBBLE_VPAD + label <= i32::MAX
    }
}

/// Whether the lines of a message are of its text, with the widths of their runs, and no coordinate of
/// them painted one below the other is beyond what a number can say.
#[verifier::opaque]
pub open spec fn lines_fit(
    lines: Seq<Line>,
    links: Seq<Span>,
    w: Seq<Vec<i32>>,
    chars: int,
    x0: int,
    y0: int,
    look: ConvLook,
) -> bool {
    &&& w.len() == lines.len()
    &&& forall|k: int|
        0 <= k < lines.len() ==> {
            &&& (#[trigger] lines[k]).start <= lines[k].end <= chars
            &&& widths_fit(w[k]@, lines[k], links)
            &&& line_fits(w[k]@, x0, y0 + k * look.body_h, look)
        }
    &&& forall|k: int| 0 <= k < links.len() ==> (#[trigger] links[k]).start <= links[k].end
}

/// Whether a laid out message, and what was measured of it, can be painted in a row: it is of the
/// text it was laid out from, nothing is negative, and no coordinate is beyond what a number can say.
pub open spec fn paintable(
    row: Rect,
    m: MessageView,
    laid: LaidView,
    look: ConvLook,
    x: BubbleMeasure,
) -> bool {
    &&& row.y0 <= row.y1
    &&& 0 <= x.label_w
    &&& 0 <= x.time_w
    &&& 0 <= x.state_w
    &&& 0 <= laid.bubble_w
    &&& 0 <= laid.gap
    &&& 0 <= laid.media_h
    &&& bubble_fits(row, m, laid, look, x)
    &&& lines_fit(
        laid.lines,
        laid.links,
        x.run_w@,
        m.text.len() as int,
        bubble_left(row, m.outgoing, laid) + BUBBLE_HPAD,
        text_top(row, m, laid),
        look,
    )
}

fn draw_lines(
    ops: &mut Vec<Op>,
    text: &String,
    laid: &Laid,
    widths: &Vec<Vec<i32>>,
    x0: i32,
    y0: i32,
    look: ConvLook,
    focus: Option<usize>,
    fg: Ink,
)
    requires
        look.sound(),
        lines_fit(
            laid.lines@,
            laid.links@,
            widths@,
            text@.len() as int,
            x0 as int,
            y0 as int,
            look,
        ),
    ensures
        ui::op_views(final(ops)@) == ui::op_views(old(ops)@) + lines_ops(
            laid.lines@,
            laid.links@,
            widths@,
            text@,
            x0 as int,
            y0 as int,
            look,
            focus,
            fg,
        ),
{
    let ghost start = ui::op_views(ops@);
    let n: usize = laid.lines.len();
    let mut i: usize = 0;
    assert(laid.lines@.take(0) =~= seq![]);
    assert(start + Seq::<OpView>::empty() =~= start);
    while i < n
        invariant
            n == laid.lines@.len(),
            i <= n,
            look.sound(),
            lines_fit(
                laid.lines@,
                laid.links@,
                widths@,
                text@.len() as int,
                x0 as int,
                y0 as int,
                look,
            ),
            ui::op_views(ops@) == start + lines_ops(
                laid.lines@.take(i as int),
                laid.links@,
                widths@,
                text@,
                x0 as int,
                y0 as int,
                look,
                focus,
                fg,
            ),
        decreases n - i,
    {
        let line = laid.lines[i];
        proof {
            reveal(lines_fit);
            assert(laid.lines@[i as int] == line);
        }
        assert(0 <= i * look.body_h) by (nonlinear_arith)
            requires
                0 <= look.body_h,
        ;
        let y: i32 = (y0 as i128 + i as i128 * look.body_h as i128) as i32;
        let ghost done = lines_ops(
            laid.lines@.take(i as int),
            laid.links@,
            widths@,
            text@,
            x0 as int,
            y0 as int,
            look,
            focus,
            fg,
        );
        draw_text_line(ops, text, &line, &laid.links, &widths[i], x0, y, look, focus, fg);
        let ghost one = runs_ops(
            transcript::runs_from(line.start, line.end, laid.links@, 0),
            widths@[i as int]@,
            text@,
            x0 as int,
            y as int,
            look,
            focus,
            fg,
        );
        assert(laid.lines@.take(i + 1).drop_last() =~= laid.lines@.take(i as int));
        assert(laid.lines@.take(i + 1).last() == line);
        assert(start + done + one =~= start + (done + one));
        i += 1;
    }
    assert(laid.lines@.take(i as int) =~= laid.lines@);
}

fn draw_media(
    ops: &mut Vec<Op>,
    inner: Rect,
    band: i32,
    label: String,
    label_w: i32,
    look: ConvLook,
    fg: Ink,
) -> (top: i32)
    requires
        inner.x0 + 4 <= i32::MAX,
        -12 <= inner.w() <= i32::MAX,
        0 <= band,
        inner.y0 + band + MEDIA_GAP <= i32::MAX,
        i32::MIN <= inner.y0 + ui::half(band - look.body_h) + look.body_ascent <= i32::MAX,
        0 <= label_w,
    ensures
        ui::op_views(final(ops)@) == ui::op_views(old(ops)@) + media_ops(
            inner,
            band as int,
            label@,
            label_w as int,
            look,
            fg,
        ),
        top == inner.y0 + band + MEDIA_GAP,
{
    let ghost start = ui::op_views(ops@);
    let wide: i32 = inner.x1 - inner.x0;
    let ph = xywh(inner.x0, inner.y0, wide, band);
    paint(ops, Op::Band { rect: ph });
    let lx: i64 = ph.x0 as i64 + halved_wide(wide as i64 - label_w as i64);
    let least: i32 = ph.x0 + 4;
    let at: i32 = if lx >= least as i64 {
        lx as i32
    } else {
        least
    };
    let baseline: i32 = (ph.y0 as i64 + halved_wide(band as i64 - look.body_h as i64)
        + look.body_ascent as i64) as i32;
    let ghost words = label@;
    paint(ops, Op::TextAt { x: at, baseline, text: label, font: Font::Body, ink: fg });
    assert(ui::op_views(ops@) =~= start + media_ops(
        inner,
        band as int,
        words,
        label_w as int,
        look,
        fg,
    ));
    ph.y1 + MEDIA_GAP
}

fn draw_meta(
    ops: &mut Vec<Op>,
    inner: Rect,
    y: i32,
    m: &Message,
    time_w: i32,
    state_w: i32,
    look: ConvLook,
)
    requires
        0 <= time_w,
        0 <= state_w,
        0 <= look.body_h,
        y + look.body_h <= i32::MAX,
        i32::MIN <= inner.x1 - (if m@.outgoing {
            state_w + 3
        } else {
            0
        }) - time_w,
    ensures
        ui::op_views(final(ops)@) == ui::op_views(old(ops)@) + meta_ops(
            inner,
            y as int,
            m@,
            time_w as int,
            state_w as int,
            look,
        ),
{
    let ghost start = ui::op_views(ops@);
    let mut right: i32 = inner.x1;
    if m.outgoing {
        let ink = match m.state {
            Delivery::Failed => Ink::Unread,
            Delivery::Read => Ink::AccentText,
            _ => Ink::MetaOut,
        };
        paint(
            ops,
            Op::Text {
                rect: Rect { x0: right - state_w, y0: y, x1: right, y1: y + look.body_h },
                text: m.state.glyph().to_owned(),
                font: Font::Small,
                ink,
                align: Align::End,
            },
        );
        right = right - state_w - 3;
    }
    let ink = if m.outgoing {
        Ink::MetaOut
    } else {
        Ink::Dim
    };
    paint(
        ops,
        Op::Text {
            rect: Rect { x0: right - time_w, y0: y, x1: right, y1: y + look.body_h },
            text: m.time.clone(),
            font: Font::Small,
            ink,
            align: Align::End,
        },
    );
    assert(ui::op_views(ops@) =~= start + meta_ops(
        inner,
        y as int,
        m@,
        time_w as int,
        state_w as int,
        look,
    ));
}

fn boxes(row: Rect, m: &Message, laid: &Laid, look: ConvLook, x: &BubbleMeasure) -> (r: (Rect, Rect))
    requires
        look.sound(),
        paintable(row, m@, laid@, look, *x),
    ensures
        r.0 == bubble_rect(row, m@.outgoing, laid@),
        r.1 == inside(r.0),
        r.1.x0 == bubble_left(row, m@.outgoing, laid@) + BUBBLE_HPAD,
        r.1.x1 == bubble_left(row, m@.outgoing, laid@) + laid.bubble_w - BUBBLE_HPAD,
        r.1.y0 == row.y0 + BUBBLE_VPAD,
{
    let h: i32 = row.y1 - row.y0 - laid.gap;
    let b = if m.outgoing {
        xywh(row.x1 - laid.bubble_w, row.y0, laid.bubble_w, h)
    } else {
        xywh(row.x0, row.y0, laid.bubble_w, h)
    };
    let inner = Rect {
        x0: b.x0 + BUBBLE_HPAD,
        y0: b.y0 + BUBBLE_VPAD,
        x1: b.x1 - BUBBLE_HPAD,
        y1: b.y1 - BUBBLE_VPAD,
    };
    (b, inner)
}

fn draw_ground(ops: &mut Vec<Op>, b: Rect, outgoing: bool, focused: bool)
    ensures
        ui::op_views(final(ops)@) == ui::op_views(old(ops)@) + ground_ops(b, outgoing, focused),
{
    let ghost start = ui::op_views(ops@);
    let surface = if outgoing {
        Surface::BubbleOut
    } else {
        Surface::BubbleIn
    };
    paint(ops, Op::Round { rect: b, surface });
    if focused {
        // An outline rather than another fill, so that it still reads whose message it is.
        paint(ops, Op::Stroke { rect: b, ink: Ink::Accent });
    }
    assert(ui::op_views(ops@) =~= start + ground_ops(b, outgoing, focused));
}

fn draw_band(
    ops: &mut Vec<Op>,
    row: Rect,
    inner: Rect,
    m: &Message,
    laid: &Laid,
    look: ConvLook,
    x: &BubbleMeasure,
    font: &Atlas,
    fg: Ink,
) -> (top: i32)
    requires
        look.sound(),
        0 <= x.label_w,
        0 <= laid.bubble_w,
        bubble_fits(row, m@, laid@, look, *x),
        inner.x0 == bubble_left(row, m@.outgoing, laid@) + BUBBLE_HPAD,
        inner.x1 == bubble_left(row, m@.outgoing, laid@) + laid.bubble_w - BUBBLE_HPAD,
        inner.y0 == row.y0 + BUBBLE_VPAD,
    ensures
        ui::op_views(final(ops)@) == ui::op_views(old(ops)@) + band_ops(
            inner,
            m@,
            laid@,
            look,
            *x,
            font.glyphs@,
            fg,
        ),
        top == text_top(row, m@, laid@),
{
    match &m.media {
        Some(media) => {
            let label = media_label(media, font);
            let band: i32 = laid.media_band_h();
            draw_media(ops, inner, band, label, x.label_w, look, fg)
        },
        None => {
            assert(ui::op_views(ops@) + Seq::<OpView>::empty() =~= ui::op_views(ops@));
            inner.y0
        },
    }
}

proof fn lemma_one_by_one(
    start: Seq<OpView>,
    a: Seq<OpView>,
    b: Seq<OpView>,
    c: Seq<OpView>,
    d: Seq<OpView>,
)
    ensures
        start + a + b + c + d == start + (a + b + c + d),
{
    assert(start + a + b + c + d =~= start + (a + b + c + d));
}

/// Paint a bubble after what is already to be painted.
///
/// A label stands for the media, and nothing else: a transcript that decoded a picture for each row
/// would spend the codec and the heap on what nobody asked to see.
pub fn draw_bubble(
    ops: &mut Vec<Op>,
    row: Rect,
    m: &Message,
    laid: &Laid,
    focused: bool,
    link: Option<usize>,
    look: ConvLook,
    x: &BubbleMeasure,
    font: &Atlas,
)
    requires
        look.sound(),
        paintable(row, m@, laid@, look, *x),
    ensures
        ui::op_views(final(ops)@) == ui::op_views(old(ops)@) + bubble_ops(
            row,
            m@,
            laid@,
            focused,
            link,
            look,
            *x,
            font.glyphs@,
        ),
{
    let ghost start = ui::op_views(ops@);
    assert(laid@.lines == laid.lines@ && laid@.links == laid.links@);
    let (b, inner): (Rect, Rect) = boxes(row, m, laid, look, x);
    let fg = if m.outgoing {
        Ink::BubbleOut
    } else {
        Ink::BubbleIn
    };
    draw_ground(ops, b, m.outgoing, focused);
    let top: i32 = draw_band(ops, row, inner, m, laid, look, x, font, fg);
    draw_lines(ops, &m.text, laid, &x.run_w, inner.x0, top, look, link, fg);
    let meta_y: i32 = inner.y0 + laid.meta_offset(look.body_h);
    draw_meta(ops, inner, meta_y, m, x.time_w, x.state_w, look);
    proof {
        let ground = ground_ops(b, m@.outgoing, focused);
        let band = band_ops(inner, m@, laid@, look, *x, font.glyphs@, fg);
        let lines = lines_ops(
            laid@.lines,
            laid@.links,
            x.run_w@,
            m@.text,
            inner.x0 as int,
            top as int,
            look,
            link,
            fg,
        );
        let meta = meta_ops(inner, meta_y as int, m@, x.time_w as int, x.state_w as int, look);
        lemma_one_by_one(start, ground, band, lines, meta);
        assert(bubble_ops(row, m@, laid@, focused, link, look, *x, font.glyphs@) == ground + band
            + lines + meta);
    }
}

// ---- the screen -----------------------------------------------------------------------------------

/// A bubble the toolkit says is visible: which message, where, and what was measured of it.
#[derive(Debug)]
pub struct VisibleBubble {
    pub index: usize,
    pub rect: Rect,
    pub measure: BubbleMeasure,
}

/// Where the pieces of the screen are.
#[derive(Clone, Copy, Debug, PartialEq, Eq, Structural)]
pub struct ConvFrame {
    pub frame: Frame,
    /// Where the transcript is.
    pub area: Rect,
    /// Where the composer is.
    pub composer: Rect,
    /// How wide the strip of the scroll bar is.
    pub gutter: i32,
    /// How tall all bubbles are together.
    pub content_h: i32,
}

impl ConvFrame {
    /// Whether no size is negative.
    pub open spec fn sound(self) -> bool {
        0 <= self.gutter && 0 <= self.content_h
    }

    /// Whether where the bubbles are can be said in numbers.
    pub open spec fn body_fits(self, pad: int) -> bool {
        &&& self.area.x0 + pad <= i32::MAX
        &&& i32::MIN <= self.area.x1 - pad - self.gutter
    }

    /// Whether every coordinate of the composer can be said in a number.
    pub open spec fn composer_fits(self, look: ConvLook, typing: bool) -> bool {
        &&& self.composer.x0 + look.pad <= i32::MAX
        &&& typing ==> self.composer.x0 + look.pad + look.caret_w + 1 <= i32::MAX
        &&& i32::MIN <= self.composer.x1 - look.pad
        &&& self.composer.y0 + 3 <= i32::MAX
        &&& i32::MIN <= self.composer.y1 - 3
    }

    /// Where the bubbles are: a short conversation hangs from the composer, rather than from the
    /// title bar with a wall of empty space below it.
    pub open spec fn body(self, pad: int) -> Rect {
        Rect::edges(
            self.area.x0 + pad,
            self.area.y0 + transcript::max(self.area.h() - self.content_h, 0),
            self.area.x1 - pad - self.gutter,
            self.area.y1 as int,
        )
    }
}

/// How tall the composer is.
pub fn composer_h(body_h: i32) -> (r: i32)
    requires
        body_h + 8 <= i32::MAX,
    ensures
        r == body_h + 8,
{
    body_h + 8
}

/// Where the bubbles are.
pub fn body_rect(f: ConvFrame, pad: i32) -> (r: Rect)
    requires
        f.sound(),
        0 <= pad,
        f.body_fits(pad as int),
    ensures
        r == f.body(pad as int),
{
    let spare: i64 = f.area.y1 as i64 - f.area.y0 as i64 - f.content_h as i64;
    let anchor: i64 = if spare > 0 {
        spare
    } else {
        0
    };
    Rect {
        x0: f.area.x0 + pad,
        y0: (f.area.y0 as i64 + anchor) as i32,
        x1: f.area.x1 - pad - f.gutter,
        y1: f.area.y1,
    }
}

/// The visible bubbles as they are painted, top to bottom. The cursor is on one of them only, and so
/// is the link that has it.
pub open spec fn bubbles_ops(
    s: ConvView,
    c: ChatView,
    visible: Seq<VisibleBubble>,
    look: ConvLook,
    glyphs: Seq<char>,
) -> Seq<OpView>
    decreases visible.len(),
{
    if visible.len() == 0 {
        seq![]
    } else {
        let v = visible.last();
        let focused = s.focus == Focus::Transcript && v.index == s.state.selected;
        bubbles_ops(s, c, visible.drop_last(), look, glyphs) + bubble_ops(
            v.rect,
            c.messages[v.index as int],
            s.transcript->0.laid[v.index as int],
            focused,
            if focused {
                s.link
            } else {
                None
            },
            look,
            v.measure,
            glyphs,
        )
    }
}

/// The field of the composer.
pub open spec fn composer_field(f: ConvFrame, pad: int) -> Rect {
    Rect::edges(f.composer.x0 + pad, f.composer.y0 + 3, f.composer.x1 - pad, f.composer.y1 - 3)
}

/// The composer as it is painted. `marked` is the part of the draft that is selected.
pub open spec fn composer_ops(
    s: ConvView,
    f: ConvFrame,
    look: ConvLook,
    marked: Option<(usize, usize)>,
) -> Seq<OpView> {
    let field = composer_field(f, look.pad as int);
    let ground = seq![
        OpView::Rule {
            y: f.composer.y0,
            x0: f.composer.x0,
            x1: f.composer.x1,
            ink: Ink::Divider,
        },
        OpView::Band {
            rect: Rect::edges(
                f.composer.x0 as int,
                f.composer.y0 + 1,
                f.composer.x1 as int,
                f.composer.y1 as int,
            ),
        },
    ];
    let text = |words: Seq<char>, ink: Ink|
        OpView::Text { rect: field, text: words, font: Font::Body, ink, align: Align::Start };
    let draft = if s.composer.text.len() == 0 {
        seq![text("Mensagem…"@, Ink::Dim)]
    } else {
        (match marked {
            Some((from, to)) => seq![
                OpView::Marked {
                    x: field.x0,
                    y0: field.y0,
                    y1: field.y1,
                    text: s.composer.text,
                    from,
                    to,
                },
            ],
            None => seq![],
        }) + seq![text(s.composer.text, Ink::Text)]
    };
    let caret = if s.focus == Focus::Composer {
        seq![
            OpView::Fill {
                rect: Rect::edges(
                    field.x0 + look.caret_w,
                    field.y0 as int,
                    field.x0 + look.caret_w + 1,
                    field.y1 as int,
                ),
                ink: Ink::Accent,
            },
        ]
    } else {
        seq![]
    };
    ground + draft + caret
}

/// A conversation as it is painted.
pub open spec fn conv_ops(
    s: ConvView,
    c: ChatView,
    f: ConvFrame,
    visible: Seq<VisibleBubble>,
    look: ConvLook,
    marked: Option<(usize, usize)>,
    glyphs: Seq<char>,
) -> Seq<OpView> {
    seq![
        OpView::Clear,
        OpView::TitleBar {
            rect: f.frame.title,
            title: c.name,
            detail: if c.loading {
                Some("carregando…"@)
            } else {
                s.note
            },
        },
        OpView::Clip { rect: f.body(look.pad as int) },
    ] + bubbles_ops(s, c, visible, look, glyphs) + seq![
        OpView::Unclip,
        OpView::Scrollbar { rect: f.area },
    ] + composer_ops(s, f, look, marked) + seq![
        OpView::SoftkeyBar {
            rect: f.frame.softkeys,
            labels: seq![
                Some("Atualizar"),
                if s.composer.text.len() == 0 {
                    None
                } else {
                    Some("Enviar")
                },
                Some("Voltar"),
            ],
        },
    ]
}

impl Conversation {
    fn draw_composer(
        &self,
        ops: &mut Vec<Op>,
        f: ConvFrame,
        look: ConvLook,
        marked: Option<(usize, usize)>,
    )
        requires
            look.sound(),
            f.composer_fits(look, self@.focus == Focus::Composer),
        ensures
            ui::op_views(final(ops)@) == ui::op_views(old(ops)@) + composer_ops(
                self@,
                f,
                look,
                marked,
            ),
    {
        let ghost start = ui::op_views(ops@);
        paint(
            ops,
            Op::Rule {
                y: f.composer.y0,
                x0: f.composer.x0,
                x1: f.composer.x1,
                ink: Ink::Divider,
            },
        );
        paint(
            ops,
            Op::Band {
                rect: Rect {
                    x0: f.composer.x0,
                    y0: f.composer.y0 + 1,
                    x1: f.composer.x1,
                    y1: f.composer.y1,
                },
            },
        );
        let field = Rect {
            x0: f.composer.x0 + look.pad,
            y0: f.composer.y0 + 3,
            x1: f.composer.x1 - look.pad,
            y1: f.composer.y1 - 3,
        };
        if self.composer.is_empty() {
            paint(
                ops,
                Op::Text {
                    rect: field,
                    text: "Mensagem…".to_owned(),
                    font: Font::Body,
                    ink: Ink::Dim,
                    align: Align::Start,
                },
            );
        } else {
            // Under the text, so that the characters stay on top of their own highlight.
            if let Some((from, to)) = marked {
                paint(
                    ops,
                    Op::Marked {
                        x: field.x0,
                        y0: field.y0,
                        y1: field.y1,
                        text: self.composer.text.clone(),
                        from,
                        to,
                    },
                );
            }
            paint(
                ops,
                Op::Text {
                    rect: field,
                    text: self.composer.text.clone(),
                    font: Font::Body,
                    ink: Ink::Text,
                    align: Align::Start,
                },
            );
        }
        if self.focus == Focus::Composer {
            let cx: i32 = field.x0 + look.caret_w;
            paint(
                ops,
                Op::Fill {
                    rect: Rect { x0: cx, y0: field.y0, x1: cx + 1, y1: field.y1 },
                    ink: Ink::Accent,
                },
            );
        }
        assert(ui::op_views(ops@) =~= start + composer_ops(self@, f, look, marked));
    }

    /// Paint the conversation. The toolkit says which bubbles are visible, and where.
    pub fn draw(
        &self,
        chat: &Chat,
        f: ConvFrame,
        visible: &Vec<VisibleBubble>,
        look: ConvLook,
        marked: Option<(usize, usize)>,
        font: &Atlas,
    ) -> (r: Vec<Op>)
        requires
            f.sound(),
            look.sound(),
            f.body_fits(look.pad as int),
            f.composer_fits(look, self@.focus == Focus::Composer),
            self@.transcript is Some,
            forall|i: int|
                0 <= i < visible@.len() ==> (#[trigger] visible@[i]).index < chat@.messages.len()
                    && visible@[i].index < self@.transcript->0.laid.len() && paintable(
                    visible@[i].rect,
                    chat@.messages[visible@[i].index as int],
                    self@.transcript->0.laid[visible@[i].index as int],
                    look,
                    visible@[i].measure,
                ),
        ensures
            ui::op_views(r@) == conv_ops(
                self@,
                chat@,
                f,
                visible@,
                look,
                marked,
                font.glyphs@,
            ),
    {
        let mut ops: Vec<Op> = Vec::new();
        paint(&mut ops, Op::Clear);
        let detail = if chat.loading {
            Some("carregando…".to_owned())
        } else {
            copy_words(&self.note)
        };
        paint(
            &mut ops,
            Op::TitleBar { rect: f.frame.title, title: chat.name.clone(), detail },
        );
        let body = body_rect(f, look.pad);
        paint(&mut ops, Op::Clip { rect: body });
        let ghost head = ui::op_views(ops@);
        let mut i: usize = 0;
        assert(visible@.take(0) =~= seq![]);
        assert(head + Seq::<OpView>::empty() =~= head);
        if let Some(t) = &self.transcript {
            while i < visible.len()
                invariant
                    i <= visible.len(),
                    look.sound(),
                    self.transcript == Some(*t),
                    forall|k: int|
                        0 <= k < visible@.len() ==> (#[trigger] visible@[k]).index
                            < chat@.messages.len() && visible@[k].index
                            < self@.transcript->0.laid.len() && paintable(
                            visible@[k].rect,
                            chat@.messages[visible@[k].index as int],
                            self@.transcript->0.laid[visible@[k].index as int],
                            look,
                            visible@[k].measure,
                        ),
                    ui::op_views(ops@) == head + bubbles_ops(
                        self@,
                        chat@,
                        visible@.take(i as int),
                        look,
                        font.glyphs@,
                    ),
                decreases visible.len() - i,
            {
                let v = &visible[i];
                assert(visible@[i as int].index < chat@.messages.len());
                assert(chat@.messages[v.index as int] == chat.messages@[v.index as int]@);
                assert(self@.transcript->0.laid[v.index as int] == t.laid@[v.index as int]@);
                let focused: bool = self.focus == Focus::Transcript && v.index
                    == self.state.selected;
                let link = if focused {
                    self.link
                } else {
                    None
                };
                let ghost done = bubbles_ops(
                    self@,
                    chat@,
                    visible@.take(i as int),
                    look,
                    font.glyphs@,
                );
                draw_bubble(
                    &mut ops,
                    v.rect,
                    &chat.messages[v.index],
                    &t.laid[v.index],
                    focused,
                    link,
                    look,
                    &v.measure,
                    font,
                );
                let ghost one = bubble_ops(
                    v.rect,
                    chat@.messages[v.index as int],
                    self@.transcript->0.laid[v.index as int],
                    focused,
                    link,
                    look,
                    v.measure,
                    font.glyphs@,
                );
                assert(visible@.take(i + 1).drop_last() =~= visible@.take(i as int));
                assert(visible@.take(i + 1).last() == *v);
                assert(head + done + one =~= head + (done + one));
                i += 1;
            }
        }
        assert(visible@.take(i as int) =~= visible@);
        paint(&mut ops, Op::Unclip);
        paint(&mut ops, Op::Scrollbar { rect: f.area });
        self.draw_composer(&mut ops, f, look, marked);
        let send: Option<&'static str> = if self.composer.is_empty() {
            None
        } else {
            Some("Enviar")
        };
        let labels: [Option<&'static str>; 3] = [Some("Atualizar"), send, Some("Voltar")];
        assert(labels@ =~= seq![Some("Atualizar"), send, Some("Voltar")]);
        paint(&mut ops, Op::SoftkeyBar { rect: f.frame.softkeys, labels });
        assert(ui::op_views(ops@) =~= conv_ops(
            self@,
            chat@,
            f,
            visible@,
            look,
            marked,
            font.glyphs@,
        ));
        ops
    }
}

} // verus!
