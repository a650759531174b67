//! What is painted: a row, a bubble and a form show what they are of, where they belong.

use crate::chats;
use crate::chats::{RowLook, RowMeasure, VisibleRow};
use crate::chats_decl;
use crate::content_laws::{a_number_reads_back, value};
use crate::conv::{ConvView, Focus};
use crate::conv_draw;
use crate::conv_draw::{BubbleMeasure, ConvFrame, ConvLook, VisibleBubble};
use crate::labels;
use crate::login::{LoginView, ScreenView};
use crate::login_decl;
use crate::login_draw;
use crate::login_draw::LoginLook;
use crate::model::{ChatView, Delivery, MessageView, StoreView};
use crate::strings::Lang;
use crate::text;
use crate::transcript;
use crate::transcript::{LaidView, Line, Run, Span};
use crate::ui;
use crate::ui::{Align, FieldView, Font, Frame, Ink, ListState, Metrics, OpView, Rect, Surface};
use vstd::prelude::*;

verus! {

// ---- the list -------------------------------------------------------------------------------------

/// A badge counts up to 999, and says only that there are more beyond that.
pub proof fn a_badge_counts(unread: u32)
    ensures
        unread <= 999 ==> value(chats::badge_words(unread)) == unread,
        unread > 999 ==> chats::badge_words(unread) == seq!['9', '9', '9', '+'],
{
    reveal_strlit("999+");
    a_number_reads_back(unread as nat);
    assert("999+"@ =~= seq!['9', '9', '9', '+']);
}

/// The ink of a text on a row: what it would be, but for the row under the cursor.
pub open spec fn on_row(selected: bool, ink: Ink) -> Ink {
    if selected {
        Ink::SelectionText
    } else {
        ink
    }
}

/// A row shows the initials and the tint of its chat, its time at the right edge, its name between the
/// two, a badge exactly where something is unread, a tick exactly where the last message is one's
/// own, and the last message to the left of the badge. The row under the cursor stands out.
#[verifier::rlimit(40)]
pub proof fn a_row_shows_its_chat(
    r: Rect,
    c: ChatView,
    selected: bool,
    look: RowLook,
    m: RowMeasure,
)
    requires
        r.y0 <= r.y1,
        look.sound(),
        m.sound(),
        chats::row_fits(r, c, look, m),
    ensures
        ({
            let ops = chats::row_ops(r, c, selected, look, m);
            let badge = if c.unread > 0 {
                1int
            } else {
                0
            };
            let tick = if c.last_outgoing {
                1int
            } else {
                0
            };
            let left = r.x0 + look.pad + (r.y1 - r.y0 - 8) + look.pad;
            let stop = r.x1 - look.pad - (if c.unread > 0 {
                m.badge_w + look.pad
            } else {
                0
            });
            &&& ops.len() == 5 + badge + tick
            &&& selected ==> ops[0] == OpView::Selected { rect: r }
            &&& !selected ==> {
                &&& ops[0] matches OpView::Rule { y, x0, x1, ink }
                &&& y == r.y1 - 1
                &&& x0 == r.x0 + look.pad
                &&& x1 == r.x1
                &&& ink == Ink::Divider
            }
            &&& ops[1] matches OpView::Avatar { rect, initials, seed }
            &&& rect.x0 == r.x0 + look.pad
            &&& rect.y0 == r.y0 + 4
            &&& rect.x1 == r.x0 + look.pad + (r.y1 - r.y0 - 8)
            &&& rect.y1 == r.y1 - 4
            &&& initials == c.initials()
            &&& seed == c.color_seed()
            &&& ops[2] matches OpView::Text { rect: at, text, font, ink, align }
            &&& text == c.time
            &&& font == Font::Small
            &&& ink == on_row(selected, Ink::Dim)
            &&& align == Align::End
            &&& at.x1 == r.x1 - look.pad
            &&& at.x0 == r.x1 - look.pad - m.time_w
            &&& at.y0 == r.y0 + 4
            &&& at.y1 == r.y0 + 4 + look.small_h
            &&& ops[3] matches OpView::Text { rect: place, text: name, font: f, ink: n, align: a }
            &&& name == c.name
            &&& f == Font::Strong
            &&& n == on_row(selected, Ink::Text)
            &&& a == Align::Start
            &&& place.x0 == left
            &&& place.x1 == at.x0 - look.pad
            &&& place.y0 == r.y0 + 3
            &&& place.y1 == r.y0 + 3 + look.strong_h
            &&& c.unread > 0 ==> {
                &&& ops[4] matches OpView::Badge { right, top, label, selected: s }
                &&& right == r.x1 - look.pad
                &&& top == r.y1 - 6 - look.small_h
                &&& label == chats::badge_words(c.unread)
                &&& s == selected
            }
            &&& c.last_outgoing ==> {
                &&& ops[4 + badge] matches OpView::Text {
                    rect: mark,
                    text: words,
                    font: mf,
                    ink: mi,
                    align: ma,
                }
                &&& words == seq!['\u{2713}', ' ']
                &&& mi == on_row(selected, Ink::Accent)
                &&& mf == Font::Small
                &&& mark.x0 == left
                &&& mark.x1 == left + look.tick_w
            }
            &&& ops.last() matches OpView::Text {
                rect: line,
                text: words,
                font: lf,
                ink: li,
                align: la,
            }
            &&& words == c.preview()
            &&& lf == Font::Small
            &&& li == on_row(selected, Ink::Dim)
            &&& la == Align::Start
            &&& line.x0 == left + tick * look.tick_w
            &&& line.x1 == stop
            &&& line.y0 == r.y1 - 4 - look.small_h
            &&& line.y1 == r.y1 - 4
        }),
{
    reveal_strlit("\u{2713} ");
    assert("\u{2713} "@ =~= seq!['\u{2713}', ' ']);
}

/// The rows that show are painted in their order, each of its own chat in its own place, and the row
/// under the cursor as such.
pub proof fn rows_are_painted_in_order(
    all: Seq<ChatView>,
    selected: usize,
    visible: Seq<VisibleRow>,
    v: VisibleRow,
    look: RowLook,
)
    ensures
        chats::rows_ops(all, selected, Seq::empty(), look).len() == 0,
        chats::rows_ops(all, selected, visible.push(v), look) == chats::rows_ops(
            all,
            selected,
            visible,
            look,
        ) + chats::row_ops(v.rect, all[v.index as int], v.index == selected, look, v.measure),
{
    assert(visible.push(v).drop_last() =~= visible);
}

/// The list begins with a clear screen and its title, which says what is under way; it ends with its
/// softkeys. Where nothing is listed, that is said.
pub proof fn the_list_says_what_is_under_way(
    state: ListState,
    s: StoreView,
    frame: Frame,
    visible: Seq<VisibleRow>,
    look: RowLook,
)
    ensures
        ({
            let ops = chats::list_ops(state, s, frame, visible, look);
            let n = ops.len() as int;
            let rows = chats::rows_ops(s.chats, state.selected, visible, look);
            &&& n > 3
            &&& ops[0] == OpView::Clear
            &&& ops[1] matches OpView::TitleBar { rect, title, detail }
            &&& rect == frame.title
            &&& title == "Telegram"@
            &&& s.dialogs_loading ==> detail == Some("carregando…"@)
            &&& !s.dialogs_loading ==> detail == Some(s.status)
            &&& s.chats.len() == 0 ==> n == 4 && ops[2] == (OpView::Placeholder {
                rect: frame.content,
                text: "Nenhuma conversa"@,
            })
            &&& s.chats.len() > 0 ==> {
                &&& n == rows.len() + 6
                &&& ops[2] == OpView::Clip { rect: frame.content }
                &&& ops.subrange(3, n - 3) == rows
                &&& ops[n - 3] == OpView::Unclip
                &&& ops[n - 2] == OpView::Scrollbar { rect: frame.content }
            }
            &&& ops[n - 1] matches OpView::SoftkeyBar { rect: at, labels }
            &&& at == frame.softkeys
            &&& labels.len() == 3
            &&& s.dialogs_loading ==> labels[0] == Some("...")
            &&& !s.dialogs_loading ==> labels[0] == Some("Atualizar")
            &&& labels[1] == Some("Abrir")
            &&& labels[2] == Some("Sair")
        }),
{
    let ops = chats::list_ops(state, s, frame, visible, look);
    let rows = chats::rows_ops(s.chats, state.selected, visible, look);
    if s.chats.len() > 0 {
        assert(ops.subrange(3, ops.len() - 3) =~= rows);
    }
}

/// A row of the described list carries a badge exactly where something is unread, a tick exactly where
/// the last message is one's own, and stands out under the cursor.
pub proof fn a_described_row_shows_its_chat(row: chats_decl::RowView, selected: bool, m: Metrics)
    requires
        i32::MIN <= m.row_h - 8,
    ensures
        ({
            let d = chats_decl::described(row, selected, m);
            &&& row.unread > 0 ==> d.badge == Some(row.unread)
            &&& row.unread == 0 ==> d.badge is None
            &&& d.tick is Some <==> row.last_outgoing
            &&& d.tick matches Some(ink) ==> ink == on_row(selected, Ink::Accent)
            &&& d.name_ink == on_row(selected, Ink::Text)
            &&& d.sub_ink == on_row(selected, Ink::Dim)
            &&& d.border is None <==> selected
            &&& d.border matches Some(at) ==> at == m.pad
            &&& d.avatar == m.row_h - 8
            &&& d.pad == m.pad
        }),
{
}

/// The described list says what is under way, lists every row where there are any, and has the cursor
/// where it is.
pub proof fn the_described_list_is_of_its_rows(
    r: chats_decl::Listing,
    rows: Seq<chats_decl::RowView>,
    loading: bool,
    status: Seq<char>,
    selected: usize,
    m: Metrics,
)
    requires
        chats_decl::lists(r, rows, loading, status, selected, m),
    ensures
        r.title@ == "Telegram"@,
        loading ==> r.detail@ == "carregando…"@,
        !loading ==> r.detail@ == status,
        rows.len() == 0 <==> r.body is Empty,
        r.body matches chats_decl::Body::List { rows: x, selected: at, row_h } ==> at == selected
            && row_h == m.row_h && x@.len() == rows.len() && (forall|i: int|
            0 <= i < rows.len() ==> (#[trigger] x@[i])@ == rows[i]),
        r.labels@.len() == 3,
        r.labels@[1] == Some("Abrir"),
        r.labels@[2] == Some("Sair"),
{
    if rows.len() > 0 {
        let x = r.body->List_rows;
        assert(chats_decl::row_views(x@) == rows);
        assert forall|i: int| 0 <= i < rows.len() implies (#[trigger] x@[i])@ == rows[i] by {
            assert(chats_decl::row_views(x@)[i] == x@[i]@);
        }
    }
}

// ---- a conversation -------------------------------------------------------------------------------

/// A bubble is as wide as its layout says and stands at the right edge of its row where the message is
/// one's own, and at the left otherwise; the gap below it is left free.
pub proof fn ones_own_bubbles_are_on_the_right(
    row: Rect,
    m: MessageView,
    laid: LaidView,
    look: ConvLook,
    x: BubbleMeasure,
)
    requires
        look.sound(),
        conv_draw::paintable(row, m, laid, look, x),
    ensures
        ({
            let b = conv_draw::bubble_rect(row, m.outgoing, laid);
            &&& m.outgoing ==> b.x1 == row.x1 && b.x0 == row.x1 - laid.bubble_w
            &&& !m.outgoing ==> b.x0 == row.x0 && b.x1 == row.x0 + laid.bubble_w
            &&& b.y0 == row.y0
            &&& b.y1 == row.y1 - laid.gap
        }),
{
}

/// How much of a bubble is above its text: the band of what it carries, and the gap under it.
pub open spec fn above_text(laid: LaidView, m: MessageView) -> int {
    if m.media is None {
        0
    } else if laid.media_h >= 2 {
        laid.media_h as int
    } else {
        2
    }
}

/// A bubble is painted on the ground of its side, with a border exactly where the cursor is on it, and
/// over it what the message carries, its lines and its time.
pub proof fn a_bubble_shows_its_message(
    row: Rect,
    m: MessageView,
    laid: LaidView,
    focused: bool,
    link: Option<usize>,
    look: ConvLook,
    x: BubbleMeasure,
    glyphs: Seq<char>,
)
    requires
        look.sound(),
        conv_draw::paintable(row, m, laid, look, x),
    ensures
        ({
            let ops = conv_draw::bubble_ops(row, m, laid, focused, link, look, x, glyphs);
            let b = conv_draw::bubble_rect(row, m.outgoing, laid);
            let ground = if focused {
                2int
            } else {
                1
            };
            let band = if m.media is Some {
                2int
            } else {
                0
            };
            let meta = if m.outgoing {
                2int
            } else {
                1
            };
            let n = ops.len() as int;
            &&& n >= ground + band + meta
            &&& ops[0] matches OpView::Round { rect, surface }
            &&& rect == b
            &&& m.outgoing ==> surface == Surface::BubbleOut
            &&& !m.outgoing ==> surface == Surface::BubbleIn
            &&& focused ==> ops[1] == (OpView::Stroke { rect: b, ink: Ink::Accent })
            &&& m.media matches Some(media) ==> {
                &&& ops[ground] matches OpView::Band { rect: over }
                &&& over.x0 == b.x0 + 6
                &&& over.y0 == b.y0 + 3
                &&& over.x1 == b.x1 - 6
                &&& ops[ground + 1] matches OpView::TextAt { x: at, text, font, ink, .. }
                &&& text == labels::label_words(media, glyphs)
                &&& font == Font::Body
                &&& at >= over.x0 + 4
                &&& at == over.x0 + 4 || -1 <= 2 * (at - over.x0) - (over.x1 - over.x0 - x.label_w)
                    <= 1
                &&& m.outgoing ==> ink == Ink::BubbleOut
                &&& !m.outgoing ==> ink == Ink::BubbleIn
            }
            &&& ops.subrange(ground + band, n - meta) == conv_draw::lines_ops(
                laid.lines,
                laid.links,
                x.run_w@,
                m.text,
                b.x0 + 6,
                b.y0 + 3 + above_text(laid, m),
                look,
                link,
                if m.outgoing {
                    Ink::BubbleOut
                } else {
                    Ink::BubbleIn
                },
            )
            &&& ops[n - 1] matches OpView::Text { rect: at, text, font, ink, align }
            &&& text == m.time
            &&& font == Font::Small
            &&& align == Align::End
            &&& m.outgoing ==> ink == Ink::MetaOut && at.x1 == b.x1 - 6 - x.state_w - 3
            &&& !m.outgoing ==> ink == Ink::Dim && at.x1 == b.x1 - 6
            &&& at.x0 == at.x1 - x.time_w
            &&& m.outgoing ==> {
                &&& ops[n - 2] matches OpView::Text {
                    rect: to,
                    text: ticks,
                    font: tf,
                    ink: ti,
                    align: ta,
                }
                &&& ticks == m.state.ticks()
                &&& to.x1 == b.x1 - 6
                &&& to.x0 == to.x1 - x.state_w
                &&& to.y0 == at.y0
                &&& m.state == Delivery::Failed ==> ti == Ink::Unread
                &&& m.state == Delivery::Read ==> ti == Ink::AccentText
                &&& m.state == Delivery::Sent || m.state == Delivery::Pending ==> ti == Ink::MetaOut
            }
        }),
{
    let ops = conv_draw::bubble_ops(row, m, laid, focused, link, look, x, glyphs);
    let b = conv_draw::bubble_rect(row, m.outgoing, laid);
    let inner = conv_draw::inside(b);
    let fg = conv_draw::bubble_ink(m.outgoing);
    let ground = conv_draw::ground_ops(b, m.outgoing, focused);
    let band = conv_draw::band_ops(inner, m, laid, look, x, glyphs, fg);
    let meta = conv_draw::meta_ops(
        inner,
        inner.y0 + laid.meta_at(look.body_h as int),
        m,
        x.time_w as int,
        x.state_w as int,
        look,
    );
    let lines = conv_draw::lines_ops(
        laid.lines,
        laid.links,
        x.run_w@,
        m.text,
        inner.x0 as int,
        b.y0 + 3 + above_text(laid, m),
        look,
        link,
        fg,
    );
    assert(ops == ground + band + lines + meta);
    assert(ops.subrange((ground.len() + band.len()) as int, ops.len() - meta.len()) =~= lines);
    assert(ops[0] == ground[0]);
    assert(ops[ops.len() - 1] == meta[meta.len() - 1]);
    if focused {
        assert(ops[1] == ground[1]);
    }
    if m.outgoing {
        assert(ops[ops.len() - 2] == meta[meta.len() - 2]);
    }
    if m.media is Some {
        assert(ops[ground.len() as int] == band[0]);
        assert(ops[ground.len() as int + 1] == band[1]);
    }
}

/// A piece of a line is painted as the characters it is of, at the pen. A link is underlined in the
/// accent, and stands on it where it has the cursor; anything else has the ink of the bubble.
pub proof fn a_run_is_painted_as_it_is(
    run: Run,
    words: Seq<char>,
    pen: i32,
    w: i32,
    y: i32,
    look: ConvLook,
    focus: Option<usize>,
    fg: Ink,
)
    requires
        i32::MIN <= pen - 1,
        pen + w + 1 <= i32::MAX,
        0 <= w,
        look.sound(),
        y + look.body_ascent + 1 <= i32::MAX,
        y + look.body_h <= i32::MAX,
    ensures
        ({
            let ops = conv_draw::run_ops(
                run,
                words,
                pen as int,
                w as int,
                y as int,
                look,
                focus,
                fg,
            );
            let chosen = run.link is Some && focus == run.link;
            let at = if chosen {
                1int
            } else {
                0
            };
            &&& ops.len() == (if run.link is Some {
                2int
            } else {
                1
            })
            &&& ops[at] matches OpView::TextAt { x, baseline, text, font, ink }
            &&& x == pen
            &&& baseline == y + look.body_ascent
            &&& text == words.subrange(run.start as int, run.end as int)
            &&& font == Font::Body
            &&& run.link is None ==> ink == fg
            &&& chosen ==> ink == Ink::AccentText
            &&& run.link is Some && !chosen ==> ink == Ink::Accent
            &&& chosen ==> {
                &&& ops[0] matches OpView::Fill { rect, ink: ground }
                &&& ground == Ink::Accent
                &&& rect.x0 == pen - 1
                &&& rect.x1 == pen + w + 1
                &&& rect.y0 == y
                &&& rect.y1 == y + look.body_h
            }
            &&& run.link is Some && !chosen ==> {
                &&& ops[1] matches OpView::Rule { y: under, x0, x1, ink: line }
                &&& under == y + look.body_ascent + 1
                &&& x0 == pen
                &&& x1 == pen + w
                &&& line == Ink::Accent
            }
        }),
{
}

/// The pieces of a line are painted one after another, each where the one before ends; and the lines
/// of a text one below another, each as tall as a line of the font.
pub proof fn a_text_is_painted_in_order(
    r: Seq<Run>,
    run: Run,
    w: Seq<i32>,
    lines: Seq<Line>,
    line: Line,
    links: Seq<Span>,
    ws: Seq<Vec<i32>>,
    words: Seq<char>,
    x0: int,
    y0: int,
    look: ConvLook,
    focus: Option<usize>,
    fg: Ink,
)
    requires
        w.len() > r.len(),
    ensures
        conv_draw::runs_ops(Seq::empty(), w, words, x0, y0, look, focus, fg).len() == 0,
        conv_draw::runs_ops(r.push(run), w, words, x0, y0, look, focus, fg) == conv_draw::runs_ops(
            r,
            w,
            words,
            x0,
            y0,
            look,
            focus,
            fg,
        ) + conv_draw::run_ops(
            run,
            words,
            x0 + conv_draw::total(w.take(r.len() as int)),
            w[r.len() as int] as int,
            y0,
            look,
            focus,
            fg,
        ),
        conv_draw::lines_ops(Seq::empty(), links, ws, words, x0, y0, look, focus, fg).len() == 0,
        conv_draw::lines_ops(lines.push(line), links, ws, words, x0, y0, look, focus, fg)
            == conv_draw::lines_ops(lines, links, ws, words, x0, y0, look, focus, fg)
            + conv_draw::runs_ops(
            transcript::runs_from(line.start, line.end, links, 0),
            ws[lines.len() as int]@,
            words,
            x0,
            y0 + lines.len() * look.body_h,
            look,
            focus,
            fg,
        ),
        conv_draw::total(w.take(r.len() as int + 1)) == conv_draw::total(w.take(r.len() as int))
            + w[r.len() as int],
        conv_draw::total(Seq::empty()) == 0,
{
    assert(r.push(run).drop_last() =~= r);
    assert(lines.push(line).drop_last() =~= lines);
    assert(w.take(r.len() as int + 1).drop_last() =~= w.take(r.len() as int));
}

/// The bubbles that show are painted in their order, each of its own message. The cursor, and the link
/// it is on, shows on the bubble it is on, and only while the keys are at the transcript.
pub proof fn bubbles_are_painted_in_order(
    s: ConvView,
    c: ChatView,
    visible: Seq<VisibleBubble>,
    v: VisibleBubble,
    look: ConvLook,
    glyphs: Seq<char>,
)
    requires
        s.transcript is Some,
    ensures
        ({
            let here = s.focus == Focus::Transcript && v.index == s.state.selected;
            &&& conv_draw::bubbles_ops(s, c, Seq::empty(), look, glyphs).len() == 0
            &&& conv_draw::bubbles_ops(s, c, visible.push(v), look, glyphs)
                == conv_draw::bubbles_ops(s, c, visible, look, glyphs) + conv_draw::bubble_ops(
                v.rect,
                c.messages[v.index as int],
                s.transcript->0.laid[v.index as int],
                here,
                if here {
                    s.link
                } else {
                    None
                },
                look,
                v.measure,
                glyphs,
            )
        }),
{
    assert(visible.push(v).drop_last() =~= visible);
}

/// A conversation begins with the name it is with and what is under way, and ends with its softkeys,
/// which offer to send exactly where something is written.
pub proof fn a_conversation_says_whom_it_is_with(
    s: ConvView,
    c: ChatView,
    f: ConvFrame,
    visible: Seq<VisibleBubble>,
    look: ConvLook,
    marked: Option<(usize, usize)>,
    glyphs: Seq<char>,
)
    ensures
        ({
            let ops = conv_draw::conv_ops(s, c, f, visible, look, marked, glyphs);
            let bubbles = conv_draw::bubbles_ops(s, c, visible, look, glyphs);
            let composer = conv_draw::composer_ops(s, f, look, marked);
            let n = ops.len() as int;
            let k = bubbles.len() as int;
            &&& n == k + composer.len() + 6
            &&& ops[0] == OpView::Clear
            &&& ops[1] matches OpView::TitleBar { rect, title, detail }
            &&& rect == f.frame.title
            &&& title == c.name
            &&& c.loading ==> detail == Some("carregando…"@)
            &&& !c.loading ==> detail == s.note
            &&& ops[2] == OpView::Clip { rect: f.body(look.pad as int) }
            &&& ops.subrange(3, 3 + k) == bubbles
            &&& ops[3 + k] == OpView::Unclip
            &&& ops[4 + k] == OpView::Scrollbar { rect: f.area }
            &&& ops.subrange(5 + k, n - 1) == composer
            &&& ops[n - 1] matches OpView::SoftkeyBar { rect: bar, labels }
            &&& bar == f.frame.softkeys
            &&& labels.len() == 3
            &&& labels[0] == Some("Atualizar")
            &&& s.composer.text.len() == 0 ==> labels[1] is None
            &&& s.composer.text.len() > 0 ==> labels[1] == Some("Enviar")
            &&& labels[2] == Some("Voltar")
        }),
{
    let ops = conv_draw::conv_ops(s, c, f, visible, look, marked, glyphs);
    let bubbles = conv_draw::bubbles_ops(s, c, visible, look, glyphs);
    let composer = conv_draw::composer_ops(s, f, look, marked);
    let k = bubbles.len() as int;
    assert(ops.subrange(3, 3 + k) =~= bubbles);
    assert(ops.subrange(5 + k, ops.len() - 1) =~= composer);
}

/// The transcript is kept inside its insets and above the composer; one that does not fill it stands
/// at its bottom.
pub proof fn the_transcript_stands_at_the_bottom(f: ConvFrame, pad: i32)
    requires
        f.sound(),
        f.area.y0 <= f.area.y1,
        f.body_fits(pad as int),
        0 <= pad,
    ensures
        ({
            let b = f.body(pad as int);
            &&& b.x0 == f.area.x0 + pad
            &&& b.x1 == f.area.x1 - pad - f.gutter
            &&& b.y1 == f.area.y1
            &&& f.content_h <= f.area.y1 - f.area.y0 ==> b.y0 == f.area.y1 - f.content_h
            &&& f.content_h > f.area.y1 - f.area.y0 ==> b.y0 == f.area.y0
        }),
{
}

/// The composer shows what is written, or an invitation to write where nothing is; what is marked is
/// painted under it; and the caret stands behind what is before it, exactly while the keys are there.
pub proof fn the_composer_shows_what_is_written(
    s: ConvView,
    f: ConvFrame,
    look: ConvLook,
    from: usize,
    to: usize,
)
    requires
        look.sound(),
        f.composer_fits(look, s.focus == Focus::Composer),
        f.composer.x0 <= f.composer.x1,
    ensures
        ({
            let ops = conv_draw::composer_ops(s, f, look, None);
            let caret = if s.focus == Focus::Composer {
                1int
            } else {
                0
            };
            &&& ops.len() == 3 + caret
            &&& ops[0] matches OpView::Rule { y, x0, x1, ink: line }
            &&& y == f.composer.y0
            &&& x0 == f.composer.x0
            &&& x1 == f.composer.x1
            &&& line == Ink::Divider
            &&& ops[1] is Band
            &&& ops[2] matches OpView::Text { rect, text, font, ink, align }
            &&& s.composer.text.len() > 0 ==> text == s.composer.text && ink == Ink::Text
            &&& s.composer.text.len() == 0 ==> text == "Mensagem…"@ && ink == Ink::Dim
            &&& font == Font::Body
            &&& align == Align::Start
            &&& rect.x0 == f.composer.x0 + look.pad
            &&& rect.x1 == f.composer.x1 - look.pad
            &&& rect.y0 == f.composer.y0 + 3
            &&& rect.y1 == f.composer.y1 - 3
            &&& s.focus == Focus::Composer ==> {
                &&& ops[3] matches OpView::Fill { rect: at, ink: i }
                &&& i == Ink::Accent
                &&& at.x0 == f.composer.x0 + look.pad + look.caret_w
                &&& at.x1 == at.x0 + 1
                &&& at.y0 == rect.y0
                &&& at.y1 == rect.y1
            }
        }),
        s.composer.text.len() > 0 ==> {
            let ops = conv_draw::composer_ops(s, f, look, Some((from, to)));
            &&& ops.len() >= 4
            &&& ops[2] matches OpView::Marked { x, text, from: a, to: b, .. }
            &&& x == f.composer.x0 + look.pad
            &&& text == s.composer.text
            &&& a == from
            &&& b == to
            &&& ops[3] matches OpView::Text { text: over, .. }
            &&& over == s.composer.text
        },
{
}

// ---- fields and forms -----------------------------------------------------------------------------

/// A hidden field shows a star for each character and none of them; any other shows what it holds.
/// What is before its caret is as many characters of that as the caret says.
pub proof fn a_hidden_field_hides(f: FieldView, i: int)
    ensures
        f.shown().len() == f.text.len(),
        f.masked && 0 <= i < f.text.len() ==> f.shown()[i] == '*',
        !f.masked ==> f.shown() == f.text,
        f.cursor <= f.text.len() ==> f.before_caret().len() == f.cursor,
        f.cursor > f.text.len() ==> f.before_caret() == f.shown(),
        0 <= i < f.before_caret().len() ==> f.before_caret()[i] == f.shown()[i],
        f.emptied().text.len() == 0,
        f.emptied().cursor == 0,
        f.emptied().masked == f.masked,
        f.emptied().limit == f.limit,
{
}

/// A form shows its title, what its field shows or what to type there, the plus of a number, the caret
/// behind what is before it, and a complaint exactly where there is one.
pub proof fn a_form_shows_its_field(
    area: Rect,
    look: LoginLook,
    title: Seq<char>,
    prefixed: bool,
    placeholder: Seq<char>,
    field: FieldView,
    error: Option<Seq<char>>,
)
    requires
        area.sound(),
        look.sound(),
        login_draw::field_fits(area, look, prefixed, error is Some),
    ensures
        ({
            let ops = login_draw::field_ops(
                area,
                look,
                title,
                prefixed,
                placeholder,
                field,
                error,
            );
            let p = if prefixed {
                1int
            } else {
                0
            };
            let e = if error is Some {
                1int
            } else {
                0
            };
            &&& ops.len() == 4 + p + e
            &&& ops[0] matches OpView::Text { text, font, ink, .. }
            &&& text == title
            &&& font == Font::Title
            &&& ink == Ink::Text
            &&& ops[0]->Text_rect.y0 == login_draw::field_top(area, look, error is Some)
            &&& ops[0]->Text_rect.x0 == area.x0 + look.pad
            &&& ops[0]->Text_rect.x1 == area.x1 - look.pad
            &&& ops[0]->Text_align == Align::Center
            &&& ops[1] matches OpView::Band { rect: f }
            &&& f == login_draw::field_rect(area, look, error is Some)
            &&& prefixed ==> {
                &&& ops[2] matches OpView::TextAt { x, text: plus, .. }
                &&& plus == seq!['+']
                &&& x == f.x0 + 6
            }
            &&& field.text.len() == 0 ==> {
                &&& ops[2 + p] matches OpView::TextAt { x, text: words, ink: dim, .. }
                &&& words == placeholder
                &&& dim == Ink::Dim
                &&& x == f.x0 + 6 + p * (look.prefix_w + 2)
            }
            &&& field.text.len() > 0 ==> {
                &&& ops[2 + p] matches OpView::Text { rect, text: words, ink: full, .. }
                &&& words.len() == field.text.len()
                &&& !field.masked ==> words == field.text
                &&& field.masked ==> forall|i: int| 0 <= i < words.len() ==> words[i] == '*'
                &&& full == Ink::Text
                &&& rect.x0 == f.x0 + 6 + p * (look.prefix_w + 2)
                &&& rect.x1 == f.x1 - 4
                &&& rect.y0 == f.y0 + 3
            }
            &&& ops[3 + p] matches OpView::Fill { rect: caret, ink: accent }
            &&& accent == Ink::Accent
            &&& caret.x0 == f.x0 + 6 + p * (look.prefix_w + 2) + look.caret_w
            &&& caret.x1 == caret.x0 + 1
            &&& caret.y0 == f.y0 + 3
            &&& caret.y1 == f.y1 - 3
            &&& error matches Some(words) ==> {
                &&& ops[4 + p] matches OpView::Text {
                    rect: under,
                    text: said,
                    font: small,
                    ink: red,
                    align,
                }
                &&& said == words
                &&& under.y0 == f.y1 + 2
                &&& align == Align::Center
                &&& small == Font::Small
                &&& red == Ink::Unread
            }
        }),
{
    reveal_strlit("+");
    assert("+"@ =~= seq!['+']);
    assert(field.shown().len() == field.text.len());
}

/// Halving drops what is left over, towards nothing.
pub proof fn a_half_is_half(v: int)
    ensures
        v >= 0 ==> 0 <= v - 2 * ui::half(v) <= 1,
        v <= 0 ==> 0 <= 2 * ui::half(v) - v <= 1,
        ui::half(-v) == -ui::half(v),
{
}

/// The field of a form stands in the middle, half as wide as its place and forty pixels more, under
/// its title.
pub proof fn a_field_stands_in_the_middle(area: Rect, look: LoginLook, prefixed: bool, complains: bool)
    requires
        area.sound(),
        look.sound(),
        login_draw::field_fits(area, look, prefixed, complains),
    ensures
        ({
            let f = login_draw::field_rect(area, look, complains);
            let w = area.x1 - area.x0;
            &&& f.x1 - f.x0 == w / 2 + 40
            &&& -1 <= (f.x0 - area.x0) - (area.x1 - f.x1) <= 1
            &&& f.y1 - f.y0 == look.body_h + 8
            &&& f.y0 == login_draw::field_top(area, look, complains) + look.title_h + 8
            &&& -1 <= (login_draw::field_top(area, look, complains) - area.y0) - (area.y1 - f.y1 - (
            if complains {
                look.small_h + 4
            } else {
                0
            })) <= 1
        }),
{
}

/// Each login screen says which it is, shows its own field with its own complaint, and has its own
/// softkeys: a number can be sent only where this build can log in at all, and a screen that waits can
/// be left.
pub proof fn each_login_screen_shows_itself(l: LoginView, area: Rect, look: LoginLook)
    ensures
        ({
            let (detail, body, labels) = login_draw::parts(l, area, look);
            let missing = l.api_id == 0 || l.api_hash_empty;
            &&& labels.len() == 3
            &&& l.screen matches ScreenView::Phone { field, error } ==> {
                &&& detail == "entrar"@
                &&& body == login_draw::field_ops(
                    area,
                    look,
                    "Número de telefone"@,
                    true,
                    "11 999999999"@,
                    field,
                    if missing {
                        Some("sem api_id: veja apps/telegram/api.conf.example"@)
                    } else {
                        error
                    },
                )
                &&& labels[0] is None && labels[2] is None
                &&& missing <==> labels[1] is None
                &&& !missing ==> labels[1] == Some("Avançar")
            }
            &&& l.screen matches ScreenView::Code { field, length, error } ==> {
                &&& detail == "código"@
                &&& body.len() > 0
                &&& body.drop_last() == login_draw::field_ops(
                    area,
                    look,
                    "Código"@,
                    false,
                    "código"@,
                    field,
                    error,
                )
                &&& body.last() matches OpView::Text { rect: at, text: hint, ink, font, .. }
                &&& ink == Ink::Dim
                &&& font == Font::Small
                &&& login_draw::hint_fits(area, look) && look.sound() && area.sound() ==> at.y1
                    == area.y1 - look.pad - look.softkey_h && at.x0 == area.x0 + look.pad && at.x1
                    == area.x1 - look.pad
                &&& length is None ==> hint == "Digite o código enviado por SMS"@
                &&& length matches Some(n) ==> n >= 0 ==> hint == "Digite os "@ + text::decimal(
                    n as nat,
                ) + " dígitos"@
                &&& labels == seq![Some("Voltar"), Some("Entrar"), None]
            }
            &&& l.screen matches ScreenView::Password { field, hint, error } ==> {
                let form = login_draw::field_ops(
                    area,
                    look,
                    "Senha de dois fatores"@,
                    false,
                    "senha"@,
                    field,
                    error,
                );
                &&& detail == "senha"@
                &&& hint.len() == 0 ==> body == form
                &&& hint.len() > 0 ==> {
                    &&& body.len() > 0
                    &&& body.drop_last() == form
                    &&& body.last() matches OpView::Text { text: said, ink, .. }
                    &&& said == hint
                    &&& ink == Ink::Dim
                }
                &&& labels == seq![None, Some("Entrar"), None]
            }
            &&& l.screen matches ScreenView::Waiting(words) ==> {
                &&& detail == words@
                &&& body == seq![OpView::Placeholder { rect: area, text: words@ }]
                &&& labels == seq![None, None, Some("Cancelar")]
            }
        }),
{
    let (detail, body, labels) = login_draw::parts(l, area, look);
    match l.screen {
        ScreenView::Code { field, length, error } => {
            let form = login_draw::field_ops(
                area,
                look,
                "Código"@,
                false,
                "código"@,
                field,
                error,
            );
            assert(body.drop_last() =~= form);
        },
        ScreenView::Password { field, hint, error } => {
            let form = login_draw::field_ops(
                area,
                look,
                "Senha de dois fatores"@,
                false,
                "senha"@,
                field,
                error,
            );
            if hint.len() > 0 {
                assert(body.drop_last() =~= form);
            }
        },
        _ => {},
    }
}

/// A login screen is painted between its title and its softkeys.
pub proof fn a_login_screen_has_its_furniture(l: LoginView, frame: Frame, look: LoginLook)
    ensures
        ({
            let ops = login_draw::login_ops(l, frame, look);
            let (detail, body, labels) = login_draw::parts(l, frame.content, look);
            let n = ops.len() as int;
            &&& n == body.len() + 3
            &&& ops[0] == OpView::Clear
            &&& ops[1] == (OpView::TitleBar {
                rect: frame.title,
                title: "Telegram"@,
                detail: Some(detail),
            })
            &&& ops.subrange(2, n - 1) == body
            &&& ops[n - 1] == (OpView::SoftkeyBar { rect: frame.softkeys, labels })
        }),
{
    let ops = login_draw::login_ops(l, frame, look);
    let (detail, body, labels) = login_draw::parts(l, frame.content, look);
    assert(ops.subrange(2, ops.len() - 1) =~= body);
}

/// A login is described as the screen that is up, with its complaint, and with what the connection
/// says unless it waits.
pub proof fn a_login_is_described_as_it_is(l: LoginView)
    ensures
        ({
            let d = login_decl::description(l);
            &&& d.connected == l.connected
            &&& l.screen is Waiting ==> d.status.len() == 0 && d.error is None
            &&& !(l.screen is Waiting) ==> d.status == l.status@
            &&& match l.screen {
                ScreenView::Phone { error, .. } => {
                    &&& d.error == error
                    &&& d.which matches login_decl::WhichView::Phone { credentials_missing }
                    &&& credentials_missing <==> l.api_id == 0 || l.api_hash_empty
                },
                ScreenView::Code { length, error, .. } => {
                    &&& d.error == error
                    &&& d.which matches login_decl::WhichView::Code { length: n }
                    &&& n == length
                },
                ScreenView::Password { field, hint, error } => {
                    &&& d.error == error
                    &&& d.which matches login_decl::WhichView::Password { hint: h, masked }
                    &&& h == hint
                    &&& masked == field.masked
                },
                ScreenView::Waiting(words) => {
                    &&& d.which matches login_decl::WhichView::Waiting(w)
                    &&& w == words@
                },
            }
        }),
{
}

/// A described form belongs to its screen: a number has its plus, a password its eye, which is open
/// where the password can be read; and the line under the field is the complaint, unless this build
/// cannot log in at all.
pub proof fn a_described_form_is_of_its_screen(
    s: login_decl::StateView,
    screen_w: i32,
    m: Metrics,
    lang: Lang,
)
    requires
        0 <= screen_w <= 10_000,
        0 <= m.pad <= 10_000,
        0 <= m.softkey_h <= 10_000,
        !(s.which is Waiting),
    ensures
        ({
            let f = login_decl::form_of(s, screen_w as int, m, lang);
            let missing = s.which matches login_decl::WhichView::Phone { credentials_missing }
                && credentials_missing;
            &&& s.which is Phone ==> f.prefix == Some("+")
            &&& !(s.which is Phone) ==> f.prefix is None
            &&& s.which matches login_decl::WhichView::Password { masked, .. } ==> f.masked == masked
                && f.eye == Some(!masked)
            &&& !(s.which is Password) ==> !f.masked && f.eye is None
            &&& !missing ==> f.line == s.error
            &&& missing ==> f.line is Some
            &&& f.width == screen_w / 2 + 40
            &&& -1 <= 2 * f.indent - (screen_w - m.pad * 2 - f.width) <= 1
            &&& s.status.len() == 0 ==> f.status is None
            &&& s.status.len() > 0 ==> (f.status matches Some((words, around)) && words == s.status
                && around.bottom == m.pad && around.right == m.pad * 2)
            &&& s.which matches login_decl::WhichView::Password { hint, .. } ==> {
                &&& hint.len() == 0 ==> f.hint is None
                &&& hint.len() > 0 ==> (f.hint matches Some((words, around)) && words == hint
                    && around.bottom == m.pad + m.softkey_h && around.left == m.pad
                    && around.right == m.pad)
            }
            &&& s.which is Phone ==> f.hint is None
            &&& s.which is Code ==> f.hint is Some
        }),
{
}

/// The hint of a code says how many digits it has, where that is known.
pub proof fn a_hint_says_how_many_digits(n: i32, hint: Seq<char>, masked: bool)
    requires
        n >= 0,
    ensures
        login_decl::hint_words(login_decl::WhichView::Code { length: Some(n) }, Lang::En) == Some(
            "Enter the "@ + text::decimal(n as nat) + " digits"@,
        ),
        login_decl::hint_words(login_decl::WhichView::Code { length: Some(n) }, Lang::Pt) == Some(
            "Digite os "@ + text::decimal(n as nat) + " dígitos"@,
        ),
        value(text::decimal(n as nat)) == n,
        hint.len() > 0 ==> login_decl::hint_words(
            login_decl::WhichView::Password { hint, masked },
            Lang::En,
        ) == Some(hint),
{
    a_number_reads_back(n as nat);
}

/// The softkeys of a login screen: a connection that is ready offers to go on, a password can be shown
/// or hidden, whichever it is not, and a screen that waits can be left.
pub proof fn a_login_screen_has_its_softkeys(
    s: login_decl::StateView,
    words: ui::Words,
)
    ensures
        ({
            let b = login_decl::bar(s, words, Lang::En);
            &&& s.which is Waiting ==> b.action is None && b.options is None && b.back == Some(
                (words.cancel, login_decl::Msg::BackToPhone),
            )
            &&& !(s.which is Waiting) ==> b.back is None
            &&& s.which is Code || s.which is Password ==> (b.action is Some <==> s.connected)
            &&& s.which matches login_decl::WhichView::Phone { credentials_missing } ==> (
            b.action is Some <==> s.connected && !credentials_missing) && b.options is None
            &&& b.action matches Some((_, m)) ==> m == login_decl::Msg::Submit
            &&& s.which is Code ==> b.options == Some((words.back, login_decl::Msg::BackToPhone))
            &&& s.which matches login_decl::WhichView::Password { masked, .. } ==> {
                &&& b.options matches Some((label, m))
                &&& m == login_decl::Msg::ToggleMask
                &&& masked ==> label == "Show"
                &&& !masked ==> label == "Hide"
            }
        }),
{
}

} // verus!
