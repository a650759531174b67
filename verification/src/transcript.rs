//! The layout of a conversation: bubbles, their lines, and the links in them.
//!
//! Wrapping and measuring are the toolkit's. What it answered for each message goes in, and out come
//! the sizes everything else is placed by. Texts are ranges of characters.

use crate::model::{Chat, Message, MessageView};
use vstd::prelude::*;

verus! {

/// The space between a bubble's edge and its text, on either side.
pub const BUBBLE_HPAD: i32 = 6;

/// The space between a bubble's edge and its text, above and below.
pub const BUBBLE_VPAD: i32 = 3;

/// The gap between messages from different senders.
pub const BUBBLE_GAP: i32 = 5;

/// The gap between messages from the same sender. Kept tight, so that a transcript reads as a
/// conversation rather than as a list.
pub const BUBBLE_GAP_SAME: i32 = 2;

/// How much of the width a bubble may take, in percent, so that a long message still shows whose
/// it is.
pub const BUBBLE_MAX_PCT: i32 = 74;

/// The space above and below the label of a media band.
pub const MEDIA_VPAD: i32 = 3;

/// The space between a media band and the text under it.
pub const MEDIA_GAP: i32 = 2;

/// One wrapped line, as a range of a message's characters.
#[derive(Clone, Copy, Debug, PartialEq, Eq, Structural)]
pub struct Line {
    pub start: usize,
    pub end: usize,
    pub width: i32,
}

/// A range of a message's characters.
#[derive(Clone, Copy, Debug, PartialEq, Eq, Structural)]
pub struct Span {
    pub start: usize,
    pub end: usize,
}

/// What the toolkit measured of one message.
#[derive(Debug)]
pub struct Measured {
    pub lines: Vec<Line>,
    /// How wide the time is, in the small font.
    pub time_w: i32,
    /// How wide the ticks are, in the small font.
    pub state_w: i32,
    /// The links in the text, in order.
    pub links: Vec<Span>,
}

/// How tall a line of each font is.
#[derive(Clone, Copy, Debug, PartialEq, Eq, Structural)]
pub struct Heights {
    pub body: i32,
    pub small: i32,
}

impl Heights {
    /// Whether neither is negative.
    pub open spec fn sound(self) -> bool {
        0 <= self.body && 0 <= self.small
    }
}

impl Measured {
    /// Whether no width is negative.
    pub open spec fn sound(self) -> bool {
        &&& 0 <= self.time_w
        &&& 0 <= self.state_w
        &&& no_negative(self.lines@)
    }
}

/// A message with its wrapping resolved for one width.
#[derive(Debug)]
pub struct Laid {
    pub lines: Vec<Line>,
    pub bubble_w: i32,
    pub height: i32,
    /// Whether the time shares the last line of the text instead of having its own.
    pub time_inline: bool,
    /// The space below the bubble.
    pub gap: i32,
    /// The height of the media band and of the gap under it.
    pub media_h: i32,
    pub links: Vec<Span>,
}

/// The values of a [`Laid`].
#[verifier::ext_equal]
pub struct LaidView {
    pub lines: Seq<Line>,
    pub bubble_w: i32,
    pub height: i32,
    pub time_inline: bool,
    pub gap: i32,
    pub media_h: i32,
    pub links: Seq<Span>,
}

impl View for Laid {
    type V = LaidView;

    open spec fn view(&self) -> LaidView {
        LaidView {
            lines: self.lines@,
            bubble_w: self.bubble_w,
            height: self.height,
            time_inline: self.time_inline,
            gap: self.gap,
            media_h: self.media_h,
            links: self.links@,
        }
    }
}

/// The larger of two numbers.
pub open spec fn max(a: int, b: int) -> int {
    if a >= b {
        a
    } else {
        b
    }
}

/// The smaller of two numbers.
pub open spec fn min(a: int, b: int) -> int {
    if a <= b {
        a
    } else {
        b
    }
}

/// Whether no line has a negative width.
pub open spec fn no_negative(lines: Seq<Line>) -> bool {
    forall|i: int| 0 <= i < lines.len() ==> 0 <= (#[trigger] lines[i]).width
}

/// How wide the widest line is.
pub open spec fn widest(lines: Seq<Line>) -> int
    decreases lines.len(),
{
    if lines.len() == 0 {
        0
    } else {
        max(widest(lines.drop_last()), lines.last().width as int)
    }
}

/// How wide a bubble may be.
pub open spec fn max_bubble(avail_w: int) -> int {
    max(avail_w * BUBBLE_MAX_PCT / 100, 40)
}

/// The lines of a message: at least one, be it empty.
pub open spec fn lines_of(lines: Seq<Line>) -> Seq<Line> {
    if lines.len() == 0 {
        seq![Line { start: 0, end: 0, width: 0 }]
    } else {
        lines
    }
}

/// How wide what stands behind a message is: its time, and its ticks where it is one's own.
pub open spec fn meta_width(outgoing: bool, time_w: int, state_w: int) -> int {
    time_w + if outgoing {
        state_w + 3
    } else {
        0
    }
}

/// How wide the last line of a message is, with what stands behind the message beside it.
pub open spec fn last_line_width(m: MessageView, x: Measured) -> int {
    lines_of(x.lines@).last().width + 6 + meta_width(m.outgoing, x.time_w as int, x.state_w as int)
}

/// Whether the time of a message finds room beside its last line.
pub open spec fn shares_a_line(m: MessageView, x: Measured, avail_w: int) -> bool {
    last_line_width(m, x) <= max_bubble(avail_w) - BUBBLE_HPAD * 2
}

/// The space below a bubble.
pub open spec fn gap_below(same_sender: bool) -> i32 {
    if same_sender {
        BUBBLE_GAP_SAME
    } else {
        BUBBLE_GAP
    }
}

/// The height of a media band and of the gap under it.
pub open spec fn band_height(m: MessageView, h: Heights) -> int {
    if m.media is Some {
        h.body + MEDIA_VPAD * 2 + MEDIA_GAP
    } else {
        0
    }
}

/// How tall the row of a message is.
pub open spec fn row_height(
    m: MessageView,
    same_sender: bool,
    x: Measured,
    h: Heights,
    avail_w: int,
) -> int {
    let extra = if shares_a_line(m, x, avail_w) {
        0
    } else {
        h.small as int
    };
    BUBBLE_VPAD * 2 + lines_of(x.lines@).len() * h.body + extra + gap_below(same_sender)
        + band_height(m, h)
}

/// A message laid out for a width.
pub open spec fn laid_out(
    m: MessageView,
    same_sender: bool,
    x: Measured,
    h: Heights,
    avail_w: int,
) -> LaidView {
    let lines = lines_of(x.lines@);
    let inline = shares_a_line(m, x, avail_w);
    let content_w = if inline {
        max(widest(lines), last_line_width(m, x))
    } else {
        max(widest(lines), meta_width(m.outgoing, x.time_w as int, x.state_w as int))
    };
    LaidView {
        lines,
        bubble_w: min(content_w + BUBBLE_HPAD * 2, max_bubble(avail_w)) as i32,
        height: row_height(m, same_sender, x, h, avail_w) as i32,
        time_inline: inline,
        gap: gap_below(same_sender),
        media_h: band_height(m, h) as i32,
        links: x.links@,
    }
}

proof fn lemma_widest(lines: Seq<Line>, i: int)
    requires
        no_negative(lines),
        0 <= i <= lines.len(),
    ensures
        0 <= widest(lines.take(i)) <= i32::MAX,
        i < lines.len() ==> widest(lines.take(i + 1)) == max(
            widest(lines.take(i)),
            lines[i].width as int,
        ),
    decreases i,
{
    if i > 0 {
        lemma_widest(lines, i - 1);
        assert(lines.take(i).drop_last() =~= lines.take(i - 1));
    }
    if i < lines.len() {
        assert(lines.take(i + 1).drop_last() =~= lines.take(i));
    }
}

fn widest_of(lines: &Vec<Line>) -> (r: i32)
    requires
        no_negative(lines@),
    ensures
        r == widest(lines@),
        0 <= r,
{
    let mut w: i32 = 0;
    let mut i: usize = 0;
    while i < lines.len()
        invariant
            i <= lines.len(),
            no_negative(lines@),
            w == widest(lines@.take(i as int)),
            0 <= w,
        decreases lines.len() - i,
    {
        proof {
            lemma_widest(lines@, i as int);
        }
        if lines[i].width > w {
            w = lines[i].width;
        }
        i += 1;
    }
    assert(lines@.take(lines@.len() as int) =~= lines@);
    w
}

fn copied<T: Copy>(v: &Vec<T>) -> (r: Vec<T>)
    ensures
        r@ == v@,
{
    let mut out: Vec<T> = Vec::new();
    let mut i: usize = 0;
    while i < v.len()
        invariant
            i <= v.len(),
            out@ == v@.take(i as int),
        decreases v.len() - i,
    {
        out.push(v[i]);
        i += 1;
        assert(v@.take(i as int) =~= v@.take(i - 1).push(v@[i - 1]));
    }
    assert(v@.take(v@.len() as int) =~= v@);
    out
}

fn lay_out(m: &Message, same_sender: bool, x: &Measured, h: Heights, avail_w: i32) -> (r: Laid)
    requires
        x.sound(),
        h.sound(),
        row_height(m@, same_sender, *x, h, avail_w as int) <= i32::MAX,
    ensures
        r@ == laid_out(m@, same_sender, *x, h, avail_w as int),
{
    let (time_w, state_w): (i64, i64) = (x.time_w as i64, x.state_w as i64);
    let mut lines: Vec<Line> = copied(&x.lines);
    let links: Vec<Span> = copied(&x.links);
    if lines.len() == 0 {
        lines.push(Line { start: 0, end: 0, width: 0 });
        assert(lines@ =~= lines_of(x.lines@));
    }
    assert(lines@ == lines_of(x.lines@));
    let share: i64 = if avail_w > 0 {
        avail_w as i64 * BUBBLE_MAX_PCT as i64 / 100
    } else {
        0
    };
    let most: i64 = if share > 40 {
        share
    } else {
        40
    };
    assert(most == max_bubble(avail_w as int));
    let inner: i64 = most - BUBBLE_HPAD as i64 * 2;
    let gap: i32 = if same_sender {
        BUBBLE_GAP_SAME
    } else {
        BUBBLE_GAP
    };
    let n: usize = lines.len();
    assert(0 <= n * h.body) by (nonlinear_arith)
        requires
            0 <= h.body,
    ;
    let text_h: i32 = (n as i128 * h.body as i128) as i32;
    let media_h: i32 = if m.media.is_some() {
        h.body + MEDIA_VPAD * 2 + MEDIA_GAP
    } else {
        0
    };
    let meta_w: i64 = if m.outgoing {
        time_w + (state_w + 3)
    } else {
        time_w
    };
    let wide: i64 = widest_of(&lines) as i64;
    let last_w: i64 = lines[n - 1].width as i64;
    let need: i64 = last_w + 6 + meta_w;
    let inline: bool = need <= inner;
    assert(inline == shares_a_line(m@, *x, avail_w as int));
    let second: i64 = if inline {
        need
    } else {
        meta_w
    };
    let content_w: i64 = if wide >= second {
        wide
    } else {
        second
    };
    let extra: i32 = if inline {
        0
    } else {
        h.small
    };
    let height: i32 = BUBBLE_VPAD * 2 + text_h + extra + gap + media_h;
    let full: i64 = content_w + BUBBLE_HPAD as i64 * 2;
    let bubble_w: i32 = if full <= most {
        full as i32
    } else {
        most as i32
    };
    let r = Laid { lines, bubble_w, height, time_inline: inline, gap, media_h, links };
    assert(r@ =~= laid_out(m@, same_sender, *x, h, avail_w as int));
    r
}

impl LaidView {
    /// The height of the media band, without the gap under it.
    pub open spec fn band(self) -> int {
        max(self.media_h - MEDIA_GAP, 0)
    }

    /// Where the time stands, from the top of the bubble's inside: beside the last line of text, or
    /// under everything.
    pub open spec fn meta_at(self, line_height: int) -> int {
        if self.time_inline {
            self.media_h + max(self.lines.len() - 1, 0) * line_height
        } else {
            self.media_h + self.lines.len() * line_height
        }
    }
}

impl Laid {
    /// The height of the media band, without the gap under it.
    pub fn media_band_h(&self) -> (r: i32)
        ensures
            r == self@.band(),
    {
        if self.media_h > MEDIA_GAP {
            self.media_h - MEDIA_GAP
        } else {
            0
        }
    }

    /// Where the time stands, from the top of the bubble's inside.
    ///
    /// Counted from under the media band: counted from the top, a photo with little text had its
    /// time drawn over the label.
    pub fn meta_offset(&self, line_height: i32) -> (r: i32)
        requires
            0 <= line_height,
            0 <= self.media_h,
            self@.meta_at(line_height as int) <= i32::MAX,
        ensures
            r == self@.meta_at(line_height as int),
            0 <= r,
    {
        let n: usize = self.lines.len();
        let rows: usize = if self.time_inline {
            if n > 0 {
                n - 1
            } else {
                0
            }
        } else {
            n
        };
        assert(0 <= rows * line_height) by (nonlinear_arith)
            requires
                0 <= line_height,
        ;
        self.media_h + (rows as i128 * line_height as i128) as i32
    }
}

/// The layout of a whole conversation, made once for a width and a number of messages rather than
/// for each frame.
#[derive(Debug)]
pub struct Transcript {
    pub laid: Vec<Laid>,
    pub width: i32,
    pub count: usize,
}

/// The values of some laid out messages, in order.
pub open spec fn laid_views(s: Seq<Laid>) -> Seq<LaidView> {
    Seq::new(s.len(), |i: int| s[i]@)
}

/// Whether a message comes from the sender of the one before it.
pub open spec fn follows(messages: Seq<MessageView>, i: int) -> bool {
    i > 0 && messages[i - 1].outgoing == messages[i].outgoing
}

/// A conversation laid out for a width.
pub open spec fn layout(
    messages: Seq<MessageView>,
    x: Seq<Measured>,
    h: Heights,
    avail_w: int,
) -> Seq<LaidView> {
    Seq::new(
        messages.len(),
        |i: int| laid_out(messages[i], follows(messages, i), x[i], h, avail_w),
    )
}

/// Whether no width is negative and no row is taller than a number can say.
pub open spec fn measurable(
    messages: Seq<MessageView>,
    x: Seq<Measured>,
    h: Heights,
    avail_w: int,
) -> bool {
    forall|i: int|
        0 <= i < messages.len() ==> (#[trigger] x[i]).sound() && row_height(
            messages[i],
            follows(messages, i),
            x[i],
            h,
            avail_w,
        ) <= i32::MAX
}

impl Transcript {
    /// Lay a conversation out, from what the toolkit measured of each message.
    pub fn build(chat: &Chat, measured: &Vec<Measured>, h: Heights, avail_w: i32) -> (r: Transcript)
        requires
            measured@.len() == chat.messages@.len(),
            h.sound(),
            measurable(chat@.messages, measured@, h, avail_w as int),
        ensures
            laid_views(r.laid@) == layout(chat@.messages, measured@, h, avail_w as int),
            r.width == avail_w,
            r.count == chat@.messages.len(),
    {
        let mut laid: Vec<Laid> = Vec::new();
        let ghost target = layout(chat@.messages, measured@, h, avail_w as int);
        let mut i: usize = 0;
        while i < chat.messages.len()
            invariant
                i <= chat.messages.len(),
                measured@.len() == chat.messages@.len(),
                h.sound(),
                measurable(chat@.messages, measured@, h, avail_w as int),
                target == layout(chat@.messages, measured@, h, avail_w as int),
                laid_views(laid@) =~= target.take(i as int),
            decreases chat.messages.len() - i,
        {
            let same: bool = i > 0 && chat.messages[i - 1].outgoing == chat.messages[i].outgoing;
            assert(chat@.messages[i as int] == chat.messages@[i as int]@);
            assert(i > 0 ==> chat@.messages[i - 1] == chat.messages@[i - 1]@);
            let ghost was = laid@;
            let one = lay_out(&chat.messages[i], same, &measured[i], h, avail_w);
            laid.push(one);
            assert(laid_views(laid@) =~= laid_views(was).push(target[i as int]));
            assert(target.take(i + 1) =~= target.take(i as int).push(target[i as int]));
            i += 1;
        }
        assert(target.take(i as int) =~= target);
        Transcript { laid, width: avail_w, count: chat.messages.len() }
    }

    /// Whether the layout no longer matches what is about to be drawn.
    pub fn is_stale(&self, chat: &Chat, avail_w: i32) -> (r: bool)
        ensures
            r == (self.width != avail_w || self.count != chat@.messages.len()),
    {
        self.width != avail_w || self.count != chat.messages.len()
    }

    /// How many messages are laid out.
    pub fn len(&self) -> (r: usize)
        ensures
            r == self.laid@.len(),
    {
        self.laid.len()
    }

    /// How tall the row of a message is.
    pub fn height(&self, index: usize) -> (r: i32)
        requires
            index < self.laid@.len(),
        ensures
            r == self.laid@[index as int].height,
    {
        self.laid[index].height
    }
}

// ---- runs of a line -------------------------------------------------------------------------------

/// A part of a line drawn in one go: plain text, or a part of one of the message's links.
#[derive(Clone, Copy, Debug, PartialEq, Eq, Structural)]
pub struct Run {
    pub start: usize,
    pub end: usize,
    pub link: Option<usize>,
}

/// The runs of what is left of a line from a character on, given the links from one on.
pub open spec fn runs_from(at: usize, end: usize, links: Seq<Span>, i: int) -> Seq<Run>
    decreases links.len() - i,
{
    if i < 0 || i >= links.len() {
        if at < end {
            seq![Run { start: at, end, link: None }]
        } else {
            seq![]
        }
    } else if links[i].end <= at || links[i].start >= end {
        runs_from(at, end, links, i + 1)
    } else {
        let lo = max(links[i].start as int, at as int) as usize;
        let hi = min(links[i].end as int, end as int) as usize;
        let before = if lo > at {
            seq![Run { start: at, end: lo, link: None }]
        } else {
            seq![]
        };
        before + seq![Run { start: lo, end: hi, link: Some(i as usize) }] + runs_from(
            hi,
            end,
            links,
            i + 1,
        )
    }
}

/// The runs of a line, broken where links start and end.
pub fn runs(line: &Line, links: &Vec<Span>) -> (r: Vec<Run>)
    ensures
        r@ == runs_from(line.start, line.end, links@, 0),
{
    let mut out: Vec<Run> = Vec::new();
    let mut at: usize = line.start;
    let end: usize = line.end;
    let ghost all = runs_from(line.start, line.end, links@, 0);
    let mut i: usize = 0;
    assert(all =~= out@ + runs_from(at, end, links@, 0));
    while i < links.len()
        invariant
            i <= links.len(),
            end == line.end,
            all == runs_from(line.start, line.end, links@, 0),
            all == out@ + runs_from(at, end, links@, i as int),
        decreases links.len() - i,
    {
        let link = links[i];
        let ghost was = out@;
        let ghost at0 = at;
        if link.end > at && link.start < end {
            let lo: usize = if link.start >= at {
                link.start
            } else {
                at
            };
            let hi: usize = if link.end <= end {
                link.end
            } else {
                end
            };
            if lo > at {
                out.push(Run { start: at, end: lo, link: None });
            }
            out.push(Run { start: lo, end: hi, link: Some(i) });
            at = hi;
            assert(was + runs_from(at0, end, links@, i as int) =~= out@ + runs_from(
                at,
                end,
                links@,
                i + 1,
            ));
        }
        i += 1;
    }
    let ghost was = out@;
    let ghost at0 = at;
    if at < end {
        out.push(Run { start: at, end, link: None });
    }
    assert(was + runs_from(at0, end, links@, i as int) =~= out@);
    out
}

// ---- laws -----------------------------------------------------------------------------------------

/// Every line fits inside its bubble, as long as the wrapping kept to the width it was given, and no
/// bubble takes more than its share of the screen.
pub proof fn every_line_fits_inside_its_bubble(
    m: MessageView,
    same_sender: bool,
    x: Measured,
    h: Heights,
    avail_w: int,
    i: int,
)
    requires
        x.sound(),
        avail_w <= i32::MAX,
        forall|k: int|
            0 <= k < x.lines@.len() ==> (#[trigger] x.lines@[k]).width <= max_bubble(avail_w)
                - BUBBLE_HPAD * 2,
        0 <= i < laid_out(m, same_sender, x, h, avail_w).lines.len(),
    ensures
        ({
            let l = laid_out(m, same_sender, x, h, avail_w);
            &&& l.lines[i].width <= l.bubble_w - BUBBLE_HPAD * 2
            &&& l.bubble_w <= max_bubble(avail_w)
        }),
{
    let lines = lines_of(x.lines@);
    lemma_widest_bounds(lines, i);
}

proof fn lemma_widest_bounds(lines: Seq<Line>, i: int)
    requires
        0 <= i < lines.len(),
        no_negative(lines),
    ensures
        lines[i].width <= widest(lines) <= i32::MAX,
    decreases lines.len(),
{
    lemma_widest(lines, lines.len() as int);
    assert(lines.take(lines.len() as int) =~= lines);
    if i < lines.len() - 1 {
        let shorter = lines.drop_last();
        assert(shorter[i] == lines[i]);
        assert(no_negative(shorter)) by {
            assert forall|k: int| 0 <= k < shorter.len() implies 0 <= (#[trigger] shorter[k]).width by {
                assert(shorter[k] == lines[k]);
            }
        }
        lemma_widest_bounds(shorter, i);
    }
}

/// The time never lands on the media band, and everything fits exactly inside the height the layout
/// claims.
pub proof fn the_time_clears_the_media_band(
    m: MessageView,
    same_sender: bool,
    x: Measured,
    h: Heights,
    avail_w: int,
)
    requires
        x.sound(),
        h.sound(),
        row_height(m, same_sender, x, h, avail_w) <= i32::MAX,
    ensures
        ({
            let l = laid_out(m, same_sender, x, h, avail_w);
            let line = if l.time_inline {
                h.body
            } else {
                h.small
            };
            &&& (m.media is None) == (l.media_h == 0)
            &&& m.media is Some ==> l.band() > 0
            &&& l.band() <= l.meta_at(h.body as int)
            &&& l.meta_at(h.body as int) + line + BUBBLE_VPAD * 2 + l.gap == l.height
        }),
{
    let l = laid_out(m, same_sender, x, h, avail_w);
    let n = l.lines.len() as int;
    let b = h.body as int;
    assert(n >= 1);
    assert((n - 1) * b + b == n * b) by (nonlinear_arith);
    assert(0 <= (n - 1) * b) by (nonlinear_arith)
        requires
            n >= 1,
            b >= 0,
    ;
}

/// The runs of a line are the line: they begin where it begins, each where the one before ended,
/// and end where it ends; and a run of a link lies within that link.
pub proof fn the_runs_of_a_line_tile_it(at: usize, end: usize, links: Seq<Span>, i: int)
    requires
        0 <= i <= links.len(),
        links.len() <= usize::MAX,
        at <= end,
        forall|k: int| 0 <= k < links.len() ==> (#[trigger] links[k]).start <= links[k].end,
    ensures
        ({
            let r = runs_from(at, end, links, i);
            &&& r.len() == 0 ==> at == end
            &&& r.len() > 0 ==> r[0].start == at && r.last().end == end
            &&& forall|k: int| 0 < k < r.len() ==> r[k - 1].end == (#[trigger] r[k]).start
            &&& forall|k: int| 0 <= k < r.len() ==> (#[trigger] r[k]).start <= r[k].end
            &&& forall|k: int|
                0 <= k < r.len() ==> ((#[trigger] r[k]).link matches Some(j) ==> j < links.len()
                    && links[j as int].start <= r[k].start && r[k].end <= links[j as int].end)
        }),
    decreases links.len() - i,
{
    if i < links.len() {
        if links[i].end <= at || links[i].start >= end {
            the_runs_of_a_line_tile_it(at, end, links, i + 1);
        } else {
            let lo = max(links[i].start as int, at as int) as usize;
            let hi = min(links[i].end as int, end as int) as usize;
            the_runs_of_a_line_tile_it(hi, end, links, i + 1);
            let rest = runs_from(hi, end, links, i + 1);
            let r = runs_from(at, end, links, i);
            let off = if lo > at {
                2int
            } else {
                1int
            };
            assert(r.len() == off + rest.len());
            assert(r[off - 1] == (Run { start: lo, end: hi, link: Some(i as usize) }));
            assert forall|k: int| off <= k < r.len() implies r[k] == rest[k - off] by {}
            if rest.len() == 0 {
                assert(r.last() == r[off - 1]);
            } else {
                assert(r.last() == rest.last());
            }
            assert forall|k: int| 0 < k < r.len() implies r[k - 1].end == (#[trigger] r[k]).start by {
                if k > off {
                    assert(rest[k - off - 1].end == rest[k - off].start);
                }
            }
        }
    }
}

} // verus!
