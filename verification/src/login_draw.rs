//! How the login screens are painted.

use crate::login::{Login, LoginView, Screen, ScreenView};
use crate::text;
use crate::text::itoa;
use crate::ui;
use crate::ui::{
    copy_words, halved, paint, xywh, Align, Field, FieldView, Font, Frame, Ink, Op, OpView, Rect,
};
use vstd::prelude::*;
use vstd::string::*;

verus! {

/// What the toolkit says of the sizes a login screen is drawn with.
#[derive(Clone, Copy, Debug, PartialEq, Eq, Structural)]
pub struct LoginLook {
    /// The inset of a row.
    pub pad: i32,
    /// The height of the softkey bar.
    pub softkey_h: i32,
    /// How tall a line of the title font is.
    pub title_h: i32,
    /// How tall a line of the body font is.
    pub body_h: i32,
    /// How far the baseline of the body font is below its top.
    pub body_ascent: i32,
    /// How tall a line of the small font is.
    pub small_h: i32,
    /// How wide the `+` in front of a number is.
    pub prefix_w: i32,
    /// How wide what the field shows before its caret is.
    pub caret_w: i32,
}

impl LoginLook {
    /// Whether no size is negative.
    pub open spec fn sound(self) -> bool {
        &&& 0 <= self.pad
        &&& 0 <= self.softkey_h
        &&& 0 <= self.title_h
        &&& 0 <= self.body_h
        &&& 0 <= self.body_ascent
        &&& 0 <= self.small_h
        &&& 0 <= self.prefix_w
        &&& 0 <= self.caret_w
    }
}

/// How tall a field with its title over it, and an error under it, is.
pub open spec fn field_height(look: LoginLook, complains: bool) -> int {
    look.title_h + 8 + (look.body_h + 8) + if complains {
        look.small_h + 4
    } else {
        0
    }
}

/// Where a field with its title over it, and an error under it, begins for all of it to stand in the
/// middle of an area.
pub open spec fn field_top(area: Rect, look: LoginLook, complains: bool) -> int {
    area.y0 + ui::half(area.h() - field_height(look, complains))
}

/// The band a field stands in.
pub open spec fn field_rect(area: Rect, look: LoginLook, complains: bool) -> Rect {
    let wide = area.w() / 2 + 40;
    Rect::boxed(
        area.x0 + ui::half(area.w() - wide),
        field_top(area, look, complains) + look.title_h + 8,
        wide,
        look.body_h + 8,
    )
}

/// The left edge of what is typed into a field: behind its prefix, where there is one.
pub open spec fn text_left(f: Rect, look: LoginLook, prefixed: bool) -> int {
    f.x0 + 6 + if prefixed {
        look.prefix_w + 2
    } else {
        0
    }
}

/// Whether every coordinate of a field in the middle of an area can be said in a number.
pub open spec fn field_fits(area: Rect, look: LoginLook, prefixed: bool, complains: bool) -> bool {
    let wide = area.w() / 2 + 40;
    let left = area.x0 + ui::half(area.w() - wide);
    let top = field_top(area, look, complains);
    let under = top + look.title_h + 8 + (look.body_h + 8);
    let prefix = if prefixed {
        look.prefix_w + 2
    } else {
        0
    };
    &&& area.w() <= i32::MAX
    &&& area.h() <= i32::MAX
    &&& field_height(look, complains) <= i32::MAX
    &&& i32::MIN <= top
    &&& under <= i32::MAX
    &&& complains ==> under + 2 + look.small_h <= i32::MAX
    &&& top + look.title_h + 11 + look.body_ascent <= i32::MAX
    &&& area.x0 + look.pad <= i32::MAX
    &&& i32::MIN <= area.x1 - look.pad
    &&& i32::MIN <= left
    &&& left + wide <= i32::MAX
    &&& left + 6 + prefix + look.caret_w + 1 <= i32::MAX
}

/// A field in the middle of an area, with its title and its error.
pub open spec fn field_ops(
    area: Rect,
    look: LoginLook,
    title: Seq<char>,
    prefixed: bool,
    placeholder: Seq<char>,
    field: FieldView,
    error: Option<Seq<char>>,
) -> Seq<OpView> {
    let y0 = field_top(area, look, error is Some);
    let f = field_rect(area, look, error is Some);
    let x = text_left(f, look, prefixed);
    let baseline = (f.y0 + 3 + look.body_ascent) as i32;
    let head = seq![
        OpView::Text {
            rect: Rect::boxed(area.x0 + look.pad, y0, area.w() - look.pad * 2, look.title_h as int),
            text: title,
            font: Font::Title,
            ink: Ink::Text,
            align: Align::Center,
        },
        OpView::Band { rect: f },
    ];
    let prefix = if prefixed {
        seq![
            OpView::TextAt {
                x: (f.x0 + 6) as i32,
                baseline,
                text: "+"@,
                font: Font::Body,
                ink: Ink::Dim,
            },
        ]
    } else {
        seq![]
    };
    let typed = if field.shown().len() == 0 {
        seq![
            OpView::TextAt {
                x: x as i32,
                baseline,
                text: placeholder,
                font: Font::Body,
                ink: Ink::Dim,
            },
        ]
    } else {
        seq![
            OpView::Text {
                rect: Rect::edges(x, f.y0 + 3, f.x1 - 4, f.y0 + 3 + look.body_h),
                text: field.shown(),
                font: Font::Body,
                ink: Ink::Text,
                align: Align::Start,
            },
        ]
    };
    let caret = seq![
        OpView::Fill {
            rect: Rect::edges(x + look.caret_w, f.y0 + 3, x + look.caret_w + 1, f.y1 - 3),
            ink: Ink::Accent,
        },
    ];
    let complaint = match error {
        Some(words) => seq![
            OpView::Text {
                rect: Rect::boxed(
                    area.x0 + look.pad,
                    f.y1 + 2,
                    area.w() - look.pad * 2,
                    look.small_h as int,
                ),
                text: words,
                font: Font::Small,
                ink: Ink::Unread,
                align: Align::Center,
            },
        ],
        None => seq![],
    };
    head + prefix + typed + caret + complaint
}

fn draw_field_centered(
    ops: &mut Vec<Op>,
    area: Rect,
    look: LoginLook,
    title: &str,
    prefixed: bool,
    placeholder: &str,
    field: &Field,
    error: Option<String>,
)
    requires
        area.sound(),
        look.sound(),
        field_fits(area, look, prefixed, error is Some),
    ensures
        ui::op_views(final(ops)@) == ui::op_views(old(ops)@) + field_ops(
            area,
            look,
            title@,
            prefixed,
            placeholder@,
            field@,
            ui::words_opt(error),
        ),
{
    let ghost start = ui::op_views(ops@);
    let ghost words = ui::words_opt(error);
    let err_h: i32 = match &error {
        Some(_) => look.small_h + 4,
        None => 0,
    };
    let field_h: i32 = look.body_h + 8;
    let total: i32 = look.title_h + 8 + field_h + err_h;
    let y0: i32 = area.y0 + halved((area.y1 - area.y0) - total);
    let width: i32 = area.x1 - area.x0;
    paint(
        ops,
        Op::Text {
            rect: Rect {
                x0: area.x0 + look.pad,
                y0,
                x1: area.x1 - look.pad,
                y1: y0 + look.title_h,
            },
            text: title.to_owned(),
            font: Font::Title,
            ink: Ink::Text,
            align: Align::Center,
        },
    );
    let wide: i32 = width / 2 + 40;
    let f = xywh(area.x0 + halved(width - wide), y0 + look.title_h + 8, wide, field_h);
    assert(f == field_rect(area, look, words is Some));
    paint(ops, Op::Band { rect: f });
    let baseline: i32 = f.y0 + 3 + look.body_ascent;
    let mut x: i32 = f.x0 + 6;
    if prefixed {
        paint(
            ops,
            Op::TextAt {
                x,
                baseline,
                text: "+".to_owned(),
                font: Font::Body,
                ink: Ink::Dim,
            },
        );
        x = x + 2 + look.prefix_w;
    }
    let shown = field.display();
    if shown.as_str().is_empty() {
        paint(
            ops,
            Op::TextAt {
                x,
                baseline,
                text: placeholder.to_owned(),
                font: Font::Body,
                ink: Ink::Dim,
            },
        );
    } else {
        paint(
            ops,
            Op::Text {
                rect: Rect { x0: x, y0: f.y0 + 3, x1: f.x1 - 4, y1: f.y0 + 3 + look.body_h },
                text: shown,
                font: Font::Body,
                ink: Ink::Text,
                align: Align::Start,
            },
        );
    }
    let caret: i32 = x + look.caret_w;
    paint(
        ops,
        Op::Fill {
            rect: Rect { x0: caret, y0: f.y0 + 3, x1: caret + 1, y1: f.y1 - 3 },
            ink: Ink::Accent,
        },
    );
    if let Some(text) = error {
        paint(
            ops,
            Op::Text {
                rect: Rect {
                    x0: area.x0 + look.pad,
                    y0: f.y1 + 2,
                    x1: area.x1 - look.pad,
                    y1: f.y1 + 2 + look.small_h,
                },
                text,
                font: Font::Small,
                ink: Ink::Unread,
                align: Align::Center,
            },
        );
    }
    assert(ui::op_views(ops@) =~= start + field_ops(
        area,
        look,
        title@,
        prefixed,
        placeholder@,
        field@,
        words,
    ));
}

/// The line under the phone field: that the build cannot log in, said before a number is typed, or
/// what went wrong.
pub open spec fn phone_line(missing: bool, error: Option<Seq<char>>) -> Option<Seq<char>> {
    if missing {
        Some("sem api_id: veja apps/telegram/api.conf.example"@)
    } else {
        error
    }
}

/// What is said about a code that was sent.
pub open spec fn code_hint(length: Option<i32>) -> Seq<char> {
    match length {
        Some(n) => "Digite os "@ + text::decimal(n as u32 as nat) + " dígitos"@,
        None => "Digite o código enviado por SMS"@,
    }
}

/// A small line at the bottom of an area.
pub open spec fn hint_op(area: Rect, look: LoginLook, words: Seq<char>) -> OpView {
    OpView::Text {
        rect: Rect::boxed(
            area.x0 + look.pad,
            area.y1 - look.pad - look.softkey_h - look.small_h,
            area.w() - look.pad * 2,
            look.small_h as int,
        ),
        text: words,
        font: Font::Small,
        ink: Ink::Dim,
        align: Align::Center,
    }
}

/// Whether every coordinate of a small line at the bottom of an area can be said in a number.
pub open spec fn hint_fits(area: Rect, look: LoginLook) -> bool {
    &&& area.x0 + look.pad <= i32::MAX
    &&& i32::MIN <= area.x1 - look.pad
    &&& i32::MIN <= area.y1 - look.pad - look.softkey_h - look.small_h
}

fn draw_hint(ops: &mut Vec<Op>, area: Rect, look: LoginLook, words: String)
    requires
        look.sound(),
        hint_fits(area, look),
    ensures
        ui::op_views(final(ops)@) == ui::op_views(old(ops)@).push(hint_op(area, look, words@)),
{
    paint(
        ops,
        Op::Text {
            rect: Rect {
                x0: area.x0 + look.pad,
                y0: area.y1 - look.pad - look.softkey_h - look.small_h,
                x1: area.x1 - look.pad,
                y1: area.y1 - look.pad - look.softkey_h,
            },
            text: words,
            font: Font::Small,
            ink: Ink::Dim,
            align: Align::Center,
        },
    );
}

/// Whether every coordinate of a login screen can be said in a number.
pub open spec fn screen_fits(l: LoginView, area: Rect, look: LoginLook) -> bool {
    match l.screen {
        ScreenView::Phone { error, .. } => field_fits(
            area,
            look,
            true,
            phone_line(l.api_id == 0 || l.api_hash_empty, error) is Some,
        ),
        ScreenView::Code { error, .. } => field_fits(area, look, false, error is Some) && hint_fits(
            area,
            look,
        ),
        ScreenView::Password { hint, error, .. } => field_fits(area, look, false, error is Some) && (
        hint.len() > 0 ==> hint_fits(area, look)),
        ScreenView::Waiting(_) => true,
    }
}

/// The title bar, the body and the labels of a login screen.
pub open spec fn parts(l: LoginView, area: Rect, look: LoginLook) -> (
    Seq<char>,
    Seq<OpView>,
    Seq<Option<&'static str>>,
) {
    match l.screen {
        ScreenView::Phone { field, error } => {
            let missing = l.api_id == 0 || l.api_hash_empty;
            (
                "entrar"@,
                field_ops(
                    area,
                    look,
                    "Número de telefone"@,
                    true,
                    "11 999999999"@,
                    field,
                    phone_line(missing, error),
                ),
                seq![
                    None,
                    if missing {
                        None
                    } else {
                        Some("Avançar")
                    },
                    None,
                ],
            )
        },
        ScreenView::Code { field, length, error } => (
            "código"@,
            field_ops(
                area,
                look,
                "Código"@,
                false,
                "código"@,
                field,
                error,
            ).push(hint_op(area, look, code_hint(length))),
            seq![Some("Voltar"), Some("Entrar"), None],
        ),
        ScreenView::Password { field, hint, error } => {
            let body = field_ops(
                area,
                look,
                "Senha de dois fatores"@,
                false,
                "senha"@,
                field,
                error,
            );
            (
                "senha"@,
                if hint.len() == 0 {
                    body
                } else {
                    body.push(hint_op(area, look, hint))
                },
                seq![None, Some("Entrar"), None],
            )
        },
        ScreenView::Waiting(msg) => (
            msg@,
            seq![OpView::Placeholder { rect: area, text: msg@ }],
            seq![None, None, Some("Cancelar")],
        ),
    }
}

/// A login screen as it is painted.
pub open spec fn login_ops(l: LoginView, frame: Frame, look: LoginLook) -> Seq<OpView> {
    let (detail, body, labels) = parts(l, frame.content, look);
    seq![
        OpView::Clear,
        OpView::TitleBar { rect: frame.title, title: "Telegram"@, detail: Some(detail) },
    ] + body + seq![OpView::SoftkeyBar { rect: frame.softkeys, labels }]
}

fn title(frame: Frame, detail: &str) -> (r: Vec<Op>)
    ensures
        ui::op_views(r@) == seq![
            OpView::Clear,
            OpView::TitleBar { rect: frame.title, title: "Telegram"@, detail: Some(detail@) },
        ],
{
    let mut ops: Vec<Op> = Vec::new();
    paint(&mut ops, Op::Clear);
    paint(
        &mut ops,
        Op::TitleBar {
            rect: frame.title,
            title: "Telegram".to_owned(),
            detail: Some(detail.to_owned()),
        },
    );
    assert(ui::op_views(ops@) =~= seq![
        OpView::Clear,
        OpView::TitleBar { rect: frame.title, title: "Telegram"@, detail: Some(detail@) },
    ]);
    ops
}

impl Login {
    /// Paint the screen that is up.
    pub fn draw(&self, frame: Frame, look: LoginLook) -> (r: Vec<Op>)
        requires
            frame.content.sound(),
            look.sound(),
            screen_fits(self@, frame.content, look),
        ensures
            ui::op_views(r@) == login_ops(self@, frame, look),
    {
        match &self.screen {
            Screen::Phone { field, error } => {
                let mut ops = title(frame, "entrar");
                let missing: bool = self.credentials_missing();
                let line = if missing {
                    Some("sem api_id: veja apps/telegram/api.conf.example".to_owned())
                } else {
                    copy_words(error)
                };
                draw_field_centered(
                    &mut ops,
                    frame.content,
                    look,
                    "Número de telefone",
                    true,
                    "11 999999999",
                    field,
                    line,
                );
                let go: Option<&'static str> = if missing {
                    None
                } else {
                    Some("Avançar")
                };
                let labels: [Option<&'static str>; 3] = [None, go, None];
                assert(labels@ =~= parts(self@, frame.content, look).2);
                paint(&mut ops, Op::SoftkeyBar { rect: frame.softkeys, labels });
                assert(ui::op_views(ops@) =~= login_ops(self@, frame, look));
                ops
            },
            Screen::Code { field, length, error } => {
                let mut ops = title(frame, "código");
                let line = copy_words(error);
                draw_field_centered(
                    &mut ops,
                    frame.content,
                    look,
                    "Código",
                    false,
                    "código",
                    field,
                    line,
                );
                let hint = match length {
                    Some(n) => {
                        let mut s = "Digite os ".to_owned();
                        let digits = itoa(*n as u32);
                        s.append(digits.as_str());
                        s.append(" dígitos");
                        s
                    },
                    None => "Digite o código enviado por SMS".to_owned(),
                };
                draw_hint(&mut ops, frame.content, look, hint);
                let labels: [Option<&'static str>; 3] = [Some("Voltar"), Some("Entrar"), None];
                assert(labels@ =~= parts(self@, frame.content, look).2);
                paint(&mut ops, Op::SoftkeyBar { rect: frame.softkeys, labels });
                assert(ui::op_views(ops@) =~= login_ops(self@, frame, look));
                ops
            },
            Screen::Password { field, hint, error } => {
                let mut ops = title(frame, "senha");
                let line = copy_words(error);
                draw_field_centered(
                    &mut ops,
                    frame.content,
                    look,
                    "Senha de dois fatores",
                    false,
                    "senha",
                    field,
                    line,
                );
                if !hint.as_str().is_empty() {
                    draw_hint(&mut ops, frame.content, look, hint.clone());
                }
                let labels: [Option<&'static str>; 3] = [None, Some("Entrar"), None];
                assert(labels@ =~= parts(self@, frame.content, look).2);
                paint(&mut ops, Op::SoftkeyBar { rect: frame.softkeys, labels });
                assert(ui::op_views(ops@) =~= login_ops(self@, frame, look));
                ops
            },
            Screen::Waiting(msg) => {
                let mut ops = title(frame, msg);
                paint(
                    &mut ops,
                    Op::Placeholder { rect: frame.content, text: (*msg).to_owned() },
                );
                let labels: [Option<&'static str>; 3] = [None, None, Some("Cancelar")];
                assert(labels@ =~= parts(self@, frame.content, look).2);
                paint(&mut ops, Op::SoftkeyBar { rect: frame.softkeys, labels });
                assert(ui::op_views(ops@) =~= login_ops(self@, frame, look));
                ops
            },
        }
    }
}

/// A build without credentials says so on the phone screen, and offers no way on from it.
pub proof fn a_build_that_cannot_log_in_says_so(l: LoginView, area: Rect, look: LoginLook)
    requires
        l.screen is Phone,
        l.api_id == 0 || l.api_hash_empty,
    ensures
        parts(l, area, look).2 == seq![None::<&'static str>, None, None],
        parts(l, area, look).1.last() matches OpView::Text { text, .. } && text
            == "sem api_id: veja apps/telegram/api.conf.example"@,
{
}

} // verus!
