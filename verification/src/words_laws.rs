//! What is written on the screens: a row, a label and a layout say what they are of.

use crate::app;
use crate::content_laws::{a_number_reads_back, a_signed_number_reads_back, is_digit, value};
use crate::labels;
use crate::model;
use crate::model::{ChatView, Delivery, MediaKind, MediaView, MessageView};
use crate::previews;
use crate::previews::{PreviewAsk, PreviewDone};
use crate::proto;
use crate::text;
use crate::transcript;
use crate::transcript::{Heights, Line, Measured, Run, Span};
use vstd::arithmetic::div_mod::{
    lemma_div_multiples_vanish, lemma_fundamental_div_mod, lemma_mod_multiples_basic,
};
use vstd::prelude::*;
use vstd::utf8::encode_utf8;

verus! {

// ---- a row ----------------------------------------------------------------------------------------

/// The line under a name is the text of the last message; one without text is a word for what it
/// carries, and each kind of attachment has its own.
pub proof fn a_preview_is_of_the_last_message(c: ChatView)
    ensures
        c.messages.len() == 0 ==> c.preview().len() == 0,
        c.messages.len() > 0 && c.messages.last().text.len() > 0 ==> c.preview()
            == c.messages.last().text,
        c.messages.len() > 0 && c.messages.last().text.len() == 0 ==> match c.messages.last().media {
            Some(MediaView::Photo { .. }) => c.preview() == seq!['F', 'o', 't', 'o'],
            Some(MediaView::Sticker { .. }) => c.preview() == "Sticker"@,
            Some(MediaView::Voice { .. }) => c.preview() == "Mensagem de voz"@,
            Some(MediaView::Audio { .. }) => c.preview() == "Audio"@,
            Some(MediaView::File { .. }) => c.preview() == "Arquivo"@,
            Some(MediaView::Unknown) => c.preview() == "Midia"@,
            None => c.preview().len() == 0,
        },
{
    reveal_strlit("");
    reveal_strlit("Foto");
    assert("Foto"@ =~= seq!['F', 'o', 't', 'o']);
}

/// Each state of a message has ticks of its own: a dot while it waits, one tick once it was sent, two
/// once it was read, and a mark where it failed.
pub proof fn ticks_are_told_apart()
    ensures
        Delivery::Pending.ticks() == seq!['\u{00B7}'],
        Delivery::Sent.ticks() == seq!['\u{2713}'],
        Delivery::Read.ticks() == seq!['\u{2713}', '\u{2713}'],
        Delivery::Failed.ticks() == seq!['!'],
{
    reveal_strlit("\u{00B7}");
    reveal_strlit("\u{2713}");
    reveal_strlit("\u{2713}\u{2713}");
    reveal_strlit("!");
    assert(Delivery::Pending.ticks() =~= seq!['\u{00B7}']);
    assert(Delivery::Sent.ticks() =~= seq!['\u{2713}']);
    assert(Delivery::Read.ticks() =~= seq!['\u{2713}', '\u{2713}']);
    assert(Delivery::Failed.ticks() =~= seq!['!']);
}

/// Whether a word of a name begins at a place: there is no white space there, and there is some in
/// front of it, or nothing.
pub open spec fn begins_a_word(name: Seq<char>, i: int) -> bool {
    &&& 0 <= i < name.len()
    &&& !model::white_space(name[i])
    &&& i == 0 || model::white_space(name[i - 1])
}

/// Whether a character is the white space of a plain text.
pub open spec fn is_plain_space(c: char) -> bool {
    c == ' ' || c == '\t' || c == '\n' || c == '\r'
}

/// What separates words is white space, and no letter, digit or mark of a plain text is.
pub proof fn white_space_separates(c: char)
    ensures
        is_plain_space(c) ==> model::white_space(c),
        '!' <= c <= '~' ==> !model::white_space(c),
        model::white_space(c) <==> {
            let n = c as u32;
            9 <= n <= 13 || n == 32 || n == 133 || n == 160 || n == 5760 || 8192 <= n <= 8202 || n
                == 8232 || n == 8233 || n == 8239 || n == 8287 || n == 12288
        },
{
}

proof fn lemma_starts(name: Seq<char>, i: int, j: int, n: int)
    requires
        begins_a_word(name, i),
        i < j,
        forall|k: int| 0 <= k < j && k != i ==> !#[trigger] begins_a_word(name, k),
        0 <= n <= name.len(),
    ensures
        n <= i ==> model::word_starts(name.take(n)).len() == 0,
        i < n <= j ==> model::word_starts(name.take(n)) == seq![name[i]],
        n > j && begins_a_word(name, j) ==> model::word_starts(name.take(n)).len() >= 2
            && model::word_starts(name.take(n))[0] == name[i] && model::word_starts(
            name.take(n),
        )[1] == name[j],
    decreases n,
{
    let s = name.take(n);
    if n > 0 {
        lemma_starts(name, i, j, n - 1);
        assert(s.drop_last() =~= name.take(n - 1));
        assert(s.last() == name[n - 1]);
        if n > 1 {
            assert(s[n - 2] == name[n - 2]);
        }
        let k = n - 1;
        assert(begins_a_word(name, k) <==> !model::white_space(s.last()) && (s.len() == 1
            || model::white_space(s[s.len() - 2])));
        let rest = model::word_starts(name.take(n - 1));
        if k < i {
            assert(!begins_a_word(name, k));
        } else if k == i {
            assert(rest.push(name[i]) =~= seq![name[i]]);
        } else if k < j {
            assert(!begins_a_word(name, k));
        } else if k == j && begins_a_word(name, j) {
            assert(rest == seq![name[i]]);
        }
    }
}

/// The initials of a chat are of the first two words of its name, upper case, in their order.
pub proof fn initials_are_of_the_first_two_words(c: ChatView, i: int, j: int)
    requires
        begins_a_word(c.name, i),
        begins_a_word(c.name, j),
        i < j,
        forall|k: int| 0 <= k < j && k != i ==> !#[trigger] begins_a_word(c.name, k),
        model::upper_case(c.name[i]).len() > 0,
    ensures
        c.initials() == model::upper_case(c.name[i]) + model::upper_case(c.name[j]),
{
    lemma_starts(c.name, i, j, c.name.len() as int);
    assert(c.name.take(c.name.len() as int) =~= c.name);
}

/// A name of one word has one initial, and a name without a word has a question mark for one.
pub proof fn one_word_has_one_initial(c: ChatView, i: int)
    ensures
        begins_a_word(c.name, i) && (forall|k: int|
            0 <= k < c.name.len() && k != i ==> !#[trigger] begins_a_word(c.name, k))
            && model::upper_case(c.name[i]).len() > 0 ==> c.initials() == model::upper_case(
            c.name[i],
        ),
        c.name.len() == 0 ==> c.initials() == seq!['?'],
{
    if begins_a_word(c.name, i) && (forall|k: int|
        0 <= k < c.name.len() && k != i ==> !#[trigger] begins_a_word(c.name, k))
        && model::upper_case(c.name[i]).len() > 0 {
        lemma_starts(c.name, i, c.name.len() as int, c.name.len() as int);
        assert(c.name.take(c.name.len() as int) =~= c.name);
        assert(c.initials() =~= model::upper_case(c.name[i]));
    }
    if c.name.len() == 0 {
        assert(model::word_starts(c.name).len() == 0);
    }
}

/// The tint of a chat is of its name alone: the hash takes the bytes of the name one after another,
/// each mixed in and the whole multiplied, from a fixed start.
pub proof fn a_tint_is_of_the_name(c: ChatView, d: ChatView, b: Seq<u8>, x: u8)
    ensures
        c.name == d.name ==> c.color_seed() == d.color_seed(),
        c.color_seed() == model::fnv(encode_utf8(c.name)),
        model::fnv(Seq::empty()) == 0x811C_9DC5u32,
        model::fnv(b.push(x)) as int == ((model::fnv(b) ^ (x as u32)) * 0x0100_0193) % 0x1_0000_0000,
{
    assert(b.push(x).drop_last() =~= b);
    let h = model::fnv(b) ^ (x as u32);
    assert(model::fnv(b.push(x)) == h.wrapping_mul(0x0100_0193));
}

// ---- labels ---------------------------------------------------------------------------------------

/// Whether two characters are a number below a hundred in two digits.
pub open spec fn two(a: char, b: char, v: int) -> bool {
    is_digit(a) && is_digit(b) && (a as int - 48) * 10 + (b as int - 48) == v
}

/// A length in seconds is shown in minutes and seconds, and from an hour on in hours, minutes and
/// seconds; the first is a number without zeros in front, and the others have two digits each. A
/// length below nothing is none.
pub proof fn a_length_is_shown_in_minutes_and_seconds(seconds: int)
    requires
        0 <= seconds,
    ensures
        ({
            let w = labels::duration_words(seconds);
            let n = w.len() as int;
            &&& seconds < 3600 ==> {
                &&& n >= 4
                &&& value(w.take(n - 3)) == seconds / 60
                &&& w[n - 3] == ':'
                &&& two(w[n - 2], w[n - 1], seconds % 60)
            }
            &&& seconds >= 3600 ==> {
                &&& n >= 7
                &&& value(w.take(n - 6)) == seconds / 3600
                &&& w[n - 6] == ':'
                &&& two(w[n - 5], w[n - 4], seconds / 60 % 60)
                &&& w[n - 3] == ':'
                &&& two(w[n - 2], w[n - 1], seconds % 60)
            }
        }),
        forall|t: int| t < 0 ==> #[trigger] labels::duration_words(t) == labels::duration_words(0),
{
    if seconds < 3600 {
        lemma_short(seconds);
    } else {
        lemma_long(seconds);
    }
}

proof fn lemma_two(v: int)
    requires
        0 <= v < 100,
    ensures
        two(text::two_digits(v)[0], text::two_digits(v)[1], v),
        text::two_digits(v).len() == 2,
{
}

proof fn lemma_short(seconds: int)
    requires
        0 <= seconds < 3600,
    ensures
        ({
            let w = labels::duration_words(seconds);
            let n = w.len() as int;
            &&& n >= 4
            &&& value(w.take(n - 3)) == seconds / 60
            &&& w[n - 3] == ':'
            &&& two(w[n - 2], w[n - 1], seconds % 60)
        }),
{
    let d = text::decimal((seconds / 60) as nat);
    let s = text::two_digits(seconds % 60);
    a_number_reads_back((seconds / 60) as nat);
    lemma_two(seconds % 60);
    let w = labels::duration_words(seconds);
    assert(w == d + seq![':'] + s);
    assert(w.take(w.len() - 3) =~= d);
    assert(w[w.len() - 2] == s[0]);
    assert(w[w.len() - 1] == s[1]);
}

proof fn lemma_long(seconds: int)
    requires
        3600 <= seconds,
    ensures
        ({
            let w = labels::duration_words(seconds);
            let n = w.len() as int;
            &&& n >= 7
            &&& value(w.take(n - 6)) == seconds / 3600
            &&& w[n - 6] == ':'
            &&& two(w[n - 5], w[n - 4], seconds / 60 % 60)
            &&& w[n - 3] == ':'
            &&& two(w[n - 2], w[n - 1], seconds % 60)
        }),
{
    let mm = seconds % 3600 / 60;
    let ss = seconds % 60;
    lemma_minutes(seconds);
    lemma_two(mm);
    lemma_two(ss);
    a_number_reads_back((seconds / 3600) as nat);
    lemma_pieces(
        text::decimal((seconds / 3600) as nat),
        text::two_digits(mm),
        text::two_digits(ss),
    );
}

proof fn lemma_minutes(seconds: int)
    requires
        0 <= seconds,
    ensures
        seconds % 3600 / 60 == seconds / 60 % 60,
        0 <= seconds % 3600 / 60 < 60,
        0 <= seconds % 60 < 60,
{
}

proof fn lemma_pieces(d: Seq<char>, m: Seq<char>, s: Seq<char>)
    requires
        d.len() > 0,
        m.len() == 2,
        s.len() == 2,
    ensures
        ({
            let w = d + seq![':'] + m + seq![':'] + s;
            let n = w.len() as int;
            &&& n >= 7
            &&& w.take(n - 6) == d
            &&& w[n - 6] == ':'
            &&& w[n - 5] == m[0]
            &&& w[n - 4] == m[1]
            &&& w[n - 3] == ':'
            &&& w[n - 2] == s[0]
            &&& w[n - 1] == s[1]
        }),
{
    let w = d + seq![':'] + m + seq![':'] + s;
    assert(w.take(w.len() - 6) =~= d);
}

/// A size below a kilobyte is shown in bytes, one below a megabyte in whole kilobytes, and a larger
/// one in tenths of a megabyte, rounded to the nearest.
pub proof fn a_size_is_shown_in_its_unit(bytes: int)
    requires
        0 <= bytes < 0x20_0000_0000_0000,
    ensures
        ({
            let w = labels::size_words(bytes);
            let n = w.len() as int;
            &&& bytes < 1024 ==> value(w) == bytes
            &&& 1024 <= bytes < 0x10_0000 ==> {
                &&& n > 3
                &&& w.skip(n - 3) == seq![' ', 'K', 'B']
                &&& value(w.take(n - 3)) == bytes / 1024
            }
            &&& 0x10_0000 <= bytes ==> {
                &&& n > 5
                &&& w.skip(n - 3) == seq![' ', 'M', 'B']
                &&& w[n - 5] == '.'
                &&& is_digit(w[n - 4])
                &&& {
                    let shown = value(w.take(n - 5)) * 10 + (w[n - 4] as int - 48);
                    2 * shown * 0x10_0000 - 0x10_0000 <= 20 * bytes <= 2 * shown * 0x10_0000
                        + 0x10_0000
                }
            }
        }),
{
    reveal_strlit(" KB");
    reveal_strlit(" MB");
    let w = labels::size_words(bytes);
    let n = w.len() as int;
    if bytes < 1024 {
        a_signed_number_reads_back(bytes);
    } else if bytes < 0x10_0000 {
        a_number_reads_back((bytes / 1024) as nat);
        assert(w.take(n - 3) =~= text::decimal((bytes / 1024) as nat));
        assert(w.skip(n - 3) =~= seq![' ', 'K', 'B']);
    } else {
        let b = bytes as nat;
        assert(labels::spacing(b) == 1);
        assert(labels::as_double(b) == b);
        let t = labels::tenths(b);
        a_number_reads_back(t / 10);
        let d = text::decimal(t / 10);
        assert(w == d + seq!['.', text::digit(t % 10)] + " MB"@);
        assert(w.take(n - 5) =~= d);
        assert(w.skip(n - 3) =~= seq![' ', 'M', 'B']);
        assert(w[n - 5] == '.');
        assert(w[n - 4] == text::digit(t % 10));
        assert((t / 10) * 10 + t % 10 == t);
    }
}

/// A size so large that it is counted in steps is the nearest step, and of two that are as near the
/// even one; a smaller one is itself. Tenths of a megabyte are rounded in the same way.
pub proof fn large_sizes_are_the_nearest_step(n: nat)
    ensures
        n < 0x20_0000_0000_0000 ==> labels::as_double(n) == n,
        ({
            let u = labels::spacing(n) as int;
            let d = labels::as_double(n) as int;
            &&& u > 0
            &&& d % u == 0
            &&& -u <= 2 * (d - n) <= u
            &&& 2 * (d - n) == u || 2 * (d - n) == -u ==> (d / u) % 2 == 0
        }),
        ({
            let t = labels::tenths(n) as int;
            &&& -0x10_0000 <= 2 * (t * 0x10_0000 - n * 10) <= 0x10_0000
            &&& 2 * (t * 0x10_0000 - n * 10) == 0x10_0000 || 2 * (t * 0x10_0000 - n * 10)
                == -0x10_0000 ==> t % 2 == 0
        }),
{
    lemma_spacing(n);
    let u = labels::spacing(n) as int;
    let q = n as int / u;
    let r = n as int % u;
    lemma_fundamental_div_mod(n as int, u);
    assert(u * q == q * u && u * (q + 1) == q * u + u && (q + 1) * u == q * u + u)
        by (nonlinear_arith);
    lemma_mod_multiples_basic(q, u);
    lemma_mod_multiples_basic(q + 1, u);
    lemma_div_multiples_vanish(q, u);
    lemma_div_multiples_vanish(q + 1, u);
}

proof fn lemma_spacing(n: nat)
    ensures
        labels::spacing(n) > 0,
    decreases n,
{
    if n >= 0x20_0000_0000_0000 {
        lemma_spacing(n / 2);
    }
}

/// The steps in which a large size is counted double as the size does.
pub proof fn steps_double_with_the_size(n: nat)
    ensures
        n < 0x20_0000_0000_0000 ==> labels::spacing(n) == 1,
        n >= 0x10_0000_0000_0000 ==> labels::spacing(2 * n) == 2 * labels::spacing(n),
{
    assert((2 * n) / 2 == n);
}

/// What stands for a kind of attachment: its picture where the font has it, and its word otherwise.
pub open spec fn is_mark(s: Seq<char>, glyphs: Seq<char>, picture: char, word: Seq<char>) -> bool {
    s == (if glyphs.contains(picture) {
        seq![picture]
    } else {
        word
    })
}

/// Whether a label is some parts between brackets.
pub open spec fn bracketed(s: Seq<char>, inside: Seq<char>) -> bool {
    s == seq!['['] + inside + seq![']']
}

/// A label says what an attachment is and what there is to say of it: the size of a photo where it
/// has one, the length of a voice note, the name and the length of a track, and the name and the size
/// of a file. Nothing of another attachment is in it.
pub proof fn a_label_says_what_an_attachment_is(m: MediaView, glyphs: Seq<char>)
    ensures
        ({
            let s = labels::label_words(m, glyphs);
            match m {
                MediaView::Photo { size, .. } => exists|mark: Seq<char>|
                    #[trigger] is_mark(mark, glyphs, '\u{1F5BC}', "Foto"@) && bracketed(
                        s,
                        if size > 0 {
                            mark + seq![' '] + labels::size_words(size as int)
                        } else {
                            mark
                        },
                    ),
                MediaView::Voice { duration, .. } => exists|mark: Seq<char>|
                    #[trigger] is_mark(mark, glyphs, '\u{1F3A4}', "Voz"@) && bracketed(
                        s,
                        mark + seq![' '] + labels::duration_words(duration as int),
                    ),
                MediaView::Audio { filename, duration, .. } => exists|mark: Seq<char>|
                    #[trigger] is_mark(mark, glyphs, '\u{1F3B5}', "Audio"@) && bracketed(
                        s,
                        if filename.len() > 0 {
                            mark + seq![' '] + filename + seq![' ', '\u{B7}', ' ']
                                + labels::duration_words(duration as int)
                        } else {
                            mark + seq![' '] + labels::duration_words(duration as int)
                        },
                    ),
                MediaView::File { filename, size, .. } => exists|mark: Seq<char>|
                    #[trigger] is_mark(mark, glyphs, '\u{1F4CE}', "Arquivo"@) && bracketed(
                        s,
                        if filename.len() > 0 {
                            mark + seq![' '] + filename + seq![' ', '\u{B7}', ' ']
                                + labels::size_words(size as int)
                        } else {
                            mark + seq![' '] + labels::size_words(size as int)
                        },
                    ),
                MediaView::Sticker { alt, .. } => if alt.len() > 0 && (forall|i: int|
                    0 <= i < alt.len() ==> glyphs.contains(#[trigger] alt[i])) {
                    bracketed(s, alt)
                } else {
                    s == "[Sticker]"@
                },
                MediaView::Unknown => s == "[Midia]"@,
            }
        }),
{
    reveal_strlit(" · ");
    assert(" · "@ =~= seq![' ', '\u{B7}', ' ']);
    let s = labels::label_words(m, glyphs);
    match m {
        MediaView::Photo { size, .. } => {
            let mark = labels::mark_words(glyphs, '\u{1F5BC}', "Foto"@);
            assert(is_mark(mark, glyphs, '\u{1F5BC}', "Foto"@));
            if size > 0 {
                assert(s =~= seq!['['] + (mark + seq![' '] + labels::size_words(size as int)) + seq![
                    ']',
                ]);
            }
        },
        MediaView::Voice { duration, .. } => {
            let mark = labels::mark_words(glyphs, '\u{1F3A4}', "Voz"@);
            assert(is_mark(mark, glyphs, '\u{1F3A4}', "Voz"@));
            assert(s =~= seq!['['] + (mark + seq![' '] + labels::duration_words(duration as int))
                + seq![']']);
        },
        MediaView::Audio { filename, duration, .. } => {
            let mark = labels::mark_words(glyphs, '\u{1F3B5}', "Audio"@);
            let d = labels::duration_words(duration as int);
            assert(is_mark(mark, glyphs, '\u{1F3B5}', "Audio"@));
            if filename.len() > 0 {
                assert(s =~= seq!['['] + (mark + seq![' '] + filename + seq![' ', '\u{B7}', ' '] + d)
                    + seq![']']);
            } else {
                assert(s =~= seq!['['] + (mark + seq![' '] + d) + seq![']']);
            }
        },
        MediaView::File { filename, size, .. } => {
            let mark = labels::mark_words(glyphs, '\u{1F4CE}', "Arquivo"@);
            let d = labels::size_words(size as int);
            assert(is_mark(mark, glyphs, '\u{1F4CE}', "Arquivo"@));
            if filename.len() > 0 {
                assert(s =~= seq!['['] + (mark + seq![' '] + filename + seq![' ', '\u{B7}', ' '] + d)
                    + seq![']']);
            } else {
                assert(s =~= seq!['['] + (mark + seq![' '] + d) + seq![']']);
            }
        },
        _ => {},
    }
}

// ---- what is said ---------------------------------------------------------------------------------

/// The shape of some bytes says how many they are, and whether they begin and end as a JPEG does.
pub proof fn a_shape_says_what_the_bytes_are(b: Seq<u8>)
    ensures
        ({
            let w = app::shape(b);
            let begun = b.len() >= 2 && b[0] == 0xff && b[1] == 0xd8;
            let ended = b.len() >= 2 && b[b.len() - 2] == 0xff && b[b.len() - 1] == 0xd9;
            &&& begun && ended ==> w == text::decimal(b.len()) + "B SOI"@ + "+EOI"@
            &&& begun && !ended ==> w == text::decimal(b.len()) + "B SOI"@ + "+NO-EOI"@
            &&& !begun && ended ==> w == text::decimal(b.len()) + "B no-SOI"@ + "+EOI"@
            &&& !begun && !ended ==> w == text::decimal(b.len()) + "B no-SOI"@ + "+NO-EOI"@
            &&& value(text::decimal(b.len())) == b.len()
        }),
{
    a_number_reads_back(b.len());
}

/// The number some hexadecimal digits stand for, most significant first.
pub open spec fn hex_value(s: Seq<char>) -> int
    decreases s.len(),
{
    if s.len() == 0 {
        0
    } else {
        let c = s.last() as int;
        hex_value(s.drop_last()) * 16 + (if c < 58 {
            c - 48
        } else {
            c - 87
        })
    }
}

/// A number written in hexadecimal reads back as itself.
pub proof fn a_hexadecimal_number_reads_back(v: nat)
    ensures
        hex_value(app::hex_words(v)) == v,
        app::hex_words(v).len() > 0,
    decreases v,
{
    let s = app::hex_words(v);
    if v < 16 {
        assert(s.drop_last() =~= seq![]);
        assert(hex_value(s.drop_last()) == 0);
        assert(s.last() == text::hex_digit(v as u64));
    } else {
        a_hexadecimal_number_reads_back(v / 16);
        assert(s.drop_last() =~= app::hex_words(v / 16));
        assert(s.last() == text::hex_digit((v % 16) as u64));
    }
}

/// What is quoted of some bytes is their beginning, up to a limit.
pub proof fn a_quote_is_the_beginning(b: Seq<u8>, limit: nat, i: int)
    ensures
        text::up_to(b, limit).len() == (if limit < b.len() {
            limit
        } else {
            b.len()
        }),
        0 <= i < text::up_to(b, limit).len() ==> text::up_to(b, limit)[i] == b[i],
{
}

/// How much of a file is there is said in whole kilobytes.
pub proof fn progress_is_said_in_kilobytes(before: Seq<char>, n: nat, after: Seq<char>)
    ensures
        ({
            let w = app::kilobytes(before, n, after);
            &&& w.len() > before.len() + after.len()
            &&& w.take(before.len() as int) == before
            &&& value(w.subrange(before.len() as int, w.len() - after.len())) == n / 1024
            &&& w.skip(w.len() - after.len()) == after
        }),
{
    let w = app::kilobytes(before, n, after);
    a_number_reads_back(n / 1024);
    assert(w.take(before.len() as int) =~= before);
    assert(w.subrange(before.len() as int, w.len() - after.len()) =~= text::decimal(n / 1024));
    assert(w.skip(w.len() - after.len()) =~= after);
}

// ---- previews -------------------------------------------------------------------------------------

/// A preview is wanted for a bubble within twenty of the cursor that has none yet, and put away for
/// one further off that has one; each under the number of its own file. A bubble that can hold none,
/// or has no file, is left alone.
pub proof fn previews_are_kept_near_the_cursor(m: MessageView, i: int, selected: int)
    ensures
        ({
            let close = -20 <= i - selected <= 20;
            let wish = previews::preview_wish(m, i, selected);
            match m.media {
                Some(MediaView::Photo { id, preview, .. }) => {
                    &&& id != 0 && close && preview is None ==> wish == PreviewAsk::Read(id)
                    &&& id != 0 && !close && preview is Some ==> wish == PreviewAsk::Write(id)
                    &&& id == 0 || close == preview is Some ==> wish is Nothing
                },
                Some(MediaView::Sticker { id, preview, .. }) => {
                    &&& id != 0 && close && preview is None ==> wish == PreviewAsk::Read(id)
                    &&& id != 0 && !close && preview is Some ==> wish == PreviewAsk::Write(id)
                    &&& id == 0 || close == preview is Some ==> wish is Nothing
                },
                _ => wish is Nothing,
            }
        }),
{
}

/// What was read becomes the preview, and what was written leaves; nothing else of a message changes,
/// and nothing at all where the disk did something else.
pub proof fn a_preview_is_what_was_read(
    m: MessageView,
    i: int,
    selected: int,
    b: Option<Vec<u8>>,
)
    ensures
        ({
            let n = previews::settled(m, i, selected, PreviewDone::Read(b));
            let wish = previews::preview_wish(m, i, selected);
            &&& n.id == m.id && n.text == m.text && n.time == m.time && n.outgoing == m.outgoing
                && n.state == m.state
            &&& !(wish is Read) ==> n == m
            &&& wish is Read ==> (m.media matches Some(x) && n.media == Some(
                x.with_preview(proto::bytes_opt(b)),
            ) && x.with_preview(proto::bytes_opt(b)).preview() == (match b {
                Some(v) => Some(v@),
                None => None,
            }))
        }),
        ({
            let n = previews::settled(m, i, selected, PreviewDone::Written(true));
            let wish = previews::preview_wish(m, i, selected);
            &&& !(wish is Write) ==> n == m
            &&& wish is Write ==> (n.media matches Some(x) && x.preview() is None && x.file_id()
                == m.media->0.file_id()) && n.text == m.text && n.id == m.id
        }),
        previews::settled(m, i, selected, PreviewDone::Written(false)) == m,
        previews::settled(m, i, selected, PreviewDone::Nothing) == m,
{
}

/// An attachment is told by the number of its file and by the data centre that has it, and one that
/// names no file by neither; what a download of it would be goes by its kind.
pub proof fn an_attachment_is_told_by_its_file(x: MediaView)
    ensures
        match x {
            MediaView::Photo { id, dc_id, thumb_size, .. } => x.file_id() == id && x.dc_id() == dc_id
                && x.kind() == (if thumb_size.len() == 0 {
                None
            } else {
                Some(MediaKind::Photo)
            }),
            MediaView::Voice { id, dc_id, .. } => x.file_id() == id && x.dc_id() == dc_id && x.kind()
                == Some(MediaKind::Voice),
            MediaView::Audio { id, dc_id, .. } => x.file_id() == id && x.dc_id() == dc_id && x.kind()
                == Some(MediaKind::Audio),
            MediaView::File { id, dc_id, .. } => x.file_id() == id && x.dc_id() == dc_id && x.kind()
                == Some(MediaKind::File),
            MediaView::Sticker { id, dc_id, preview, .. } => x.file_id() == id && x.dc_id() == dc_id
                && x.kind() is None && x.preview() == preview,
            MediaView::Unknown => x.file_id() == 0 && x.dc_id() == 0 && x.kind() is None,
        },
        x matches MediaView::Photo { preview, .. } ==> x.preview() == preview,
        !(x is Photo) && !(x is Sticker) ==> x.preview() is None,
{
}

/// Another preview changes nothing else of an attachment.
pub proof fn a_preview_changes_nothing_else(x: MediaView, p: Option<Seq<u8>>)
    ensures
        x is Photo || x is Sticker ==> x.with_preview(p).preview() == p,
        !(x is Photo || x is Sticker) ==> x.with_preview(p) == x,
        x is Photo ==> x.with_preview(p) is Photo,
        x is Sticker ==> x.with_preview(p) is Sticker,
        x.with_preview(p).with_preview(x.preview()) == x,
        x.with_preview(p).file_id() == x.file_id(),
        x.with_preview(p).dc_id() == x.dc_id(),
        x.with_preview(p).kind() == x.kind(),
        app::first_request(x.with_preview(p), 0) == app::first_request(x, 0),
{
}

/// Every message is settled in its own place, by what the disk did for it.
pub proof fn each_preview_is_settled_in_its_place(
    s: Seq<MessageView>,
    selected: int,
    done: Seq<PreviewDone>,
    i: int,
)
    requires
        0 <= i < s.len(),
    ensures
        previews::settle(s, selected, done).len() == s.len(),
        previews::settle(s, selected, done)[i] == previews::settled(s[i], i, selected, done[i]),
{
}

/// How many previews were put away is how many messages lost one.
pub proof fn what_was_put_away_is_counted(
    s: Seq<MessageView>,
    selected: int,
    done: Seq<PreviewDone>,
    n: int,
)
    requires
        0 < n <= s.len(),
        n <= done.len(),
    ensures
        previews::freed(s, selected, done, 0) == 0,
        previews::freed(s, selected, done, n) - previews::freed(s, selected, done, n - 1) == (if (
        previews::preview_wish(s[n - 1], n - 1, selected) is Write) && done[n - 1]
            == PreviewDone::Written(true) {
            1int
        } else {
            0
        }),
{
}

// ---- the layout of a conversation -----------------------------------------------------------------

/// The widest line is as wide as one of the lines, and no line is wider.
pub proof fn the_widest_line_is_one_of_them(lines: Seq<Line>)
    requires
        lines.len() > 0,
        transcript::no_negative(lines),
    ensures
        exists|i: int| 0 <= i < lines.len() && transcript::widest(lines) == #[trigger] lines[i].width,
        forall|i: int| 0 <= i < lines.len() ==> (#[trigger] lines[i]).width <= transcript::widest(lines),
    decreases lines.len(),
{
    let rest = lines.drop_last();
    assert(forall|i: int| 0 <= i < rest.len() ==> #[trigger] lines[i] == rest[i]);
    if rest.len() > 0 {
        assert(transcript::no_negative(rest));
        the_widest_line_is_one_of_them(rest);
        let k = choose|i: int|
            0 <= i < rest.len() && transcript::widest(rest) == #[trigger] rest[i].width;
        assert(lines[k].width == transcript::widest(rest));
    } else {
        assert(transcript::widest(rest) == 0);
    }
    assert(lines[lines.len() - 1] == lines.last());
}

/// A layout has a bubble for each message, in their order, with the lines and the links that were
/// measured for it. A bubble is as wide as its text and its time need, and at most three quarters of
/// the screen or a little less; its time is on the last line exactly where there is room for it.
pub proof fn a_bubble_is_as_large_as_it_needs(
    messages: Seq<MessageView>,
    x: Seq<Measured>,
    h: Heights,
    avail_w: i32,
    i: int,
)
    requires
        0 <= i < messages.len(),
        x.len() == messages.len(),
        x[i].sound(),
        h.sound(),
        0 <= avail_w,
        x[i].lines@.len() > 0,
        transcript::row_height(
            messages[i],
            i > 0 && messages[i - 1].outgoing == messages[i].outgoing,
            x[i],
            h,
            avail_w as int,
        ) <= i32::MAX,
    ensures
        ({
            let all = transcript::layout(messages, x, h, avail_w as int);
            let l = all[i];
            let m = messages[i];
            let wide = if avail_w * 74 / 100 >= 40 {
                avail_w * 74 / 100
            } else {
                40
            };
            let meta = x[i].time_w + (if m.outgoing {
                x[i].state_w + 3
            } else {
                0
            });
            let beside = x[i].lines@.last().width + 6 + meta;
            &&& all.len() == messages.len()
            &&& l.lines == x[i].lines@
            &&& l.links == x[i].links@
            &&& l.time_inline <==> beside <= wide - 12
            &&& l.bubble_w <= wide
            &&& l.bubble_w == wide || (l.bubble_w - 12 == transcript::widest(x[i].lines@)
                || l.bubble_w - 12 == (if l.time_inline {
                beside
            } else {
                meta
            }))
            &&& l.gap == (if i > 0 && messages[i - 1].outgoing == m.outgoing {
                2int
            } else {
                5
            })
            &&& l.media_h == (if m.media is Some {
                h.body + 8
            } else {
                0
            })
            &&& l.height == 6 + l.lines.len() * h.body + (if l.time_inline {
                0
            } else {
                h.small as int
            }) + l.gap + l.media_h
        }),
{
    let n = x[i].lines@.len();
    assert(0 <= n * h.body) by (nonlinear_arith)
        requires
            n >= 0,
            h.body >= 0,
    ;
}

/// A message without a line of text has one that is empty, so that its time has a place.
pub proof fn an_empty_text_has_a_line(lines: Seq<Line>)
    ensures
        lines.len() > 0 ==> transcript::lines_of(lines) == lines,
        lines.len() == 0 ==> transcript::lines_of(lines).len() == 1 && transcript::lines_of(
            lines,
        )[0].start == 0 && transcript::lines_of(lines)[0].end == 0 && transcript::lines_of(
            lines,
        )[0].width == 0,
{
}

proof fn lemma_nothing_left(end: usize, links: Seq<Span>, i: int)
    requires
        0 <= i <= links.len(),
        forall|k: int| i <= k < links.len() ==> (#[trigger] links[k]).start >= end,
    ensures
        transcript::runs_from(end, end, links, i).len() == 0,
    decreases links.len() - i,
{
    if i < links.len() {
        assert(links[i].start >= end);
        lemma_nothing_left(end, links, i + 1);
    }
}

/// What is painted as plain text is in no link: every character of a link is painted as part of that
/// link.
pub proof fn a_link_is_painted_as_a_link(at: usize, end: usize, links: Seq<Span>, i: int, k: int, j: int)
    requires
        0 <= i <= links.len(),
        links.len() <= usize::MAX,
        at <= end,
        forall|a: int| 0 <= a < links.len() ==> (#[trigger] links[a]).start <= links[a].end,
        forall|a: int, b: int|
            0 <= a < b < links.len() ==> (#[trigger] links[a]).end <= (#[trigger] links[b]).start,
        0 <= k < transcript::runs_from(at, end, links, i).len(),
        i <= j < links.len(),
    ensures
        at <= transcript::runs_from(at, end, links, i)[k].start,
        transcript::runs_from(at, end, links, i)[k].end <= end,
        transcript::runs_from(at, end, links, i)[k].link != Some(j as usize)
            ==> transcript::runs_from(at, end, links, i)[k].end <= links[j].start || links[j].end
            <= transcript::runs_from(at, end, links, i)[k].start,
    decreases links.len() - i,
{
    let r = transcript::runs_from(at, end, links, i);
    if links[i].end <= at || links[i].start >= end {
        if i + 1 < links.len() {
            a_link_is_painted_as_a_link(
                at,
                end,
                links,
                i + 1,
                k,
                if j > i {
                    j
                } else {
                    i + 1
                },
            );
        } else {
            assert(r == transcript::runs_from(at, end, links, i + 1));
        }
    } else {
        let lo = transcript::max(links[i].start as int, at as int) as usize;
        let hi = transcript::min(links[i].end as int, end as int) as usize;
        let rest = transcript::runs_from(hi, end, links, i + 1);
        let off = if lo > at {
            2int
        } else {
            1int
        };
        assert(r.len() == off + rest.len());
        assert(r[off - 1] == (Run { start: lo, end: hi, link: Some(i as usize) }));
        if k >= off {
            assert(r[k] == rest[k - off]);
            if hi < links[i].end {
                assert(hi == end);
                assert forall|a: int| i + 1 <= a < links.len() implies (#[trigger] links[a]).start
                    >= end by {
                    assert(links[i].end <= links[a].start);
                }
                lemma_nothing_left(end, links, i + 1);
            }
            if i + 1 < links.len() {
                a_link_is_painted_as_a_link(
                    hi,
                    end,
                    links,
                    i + 1,
                    k - off,
                    if j > i {
                        j
                    } else {
                        i + 1
                    },
                );
            }
        } else if j > i {
            assert(links[i].end <= links[j].start);
        }
    }
}

} // verus!
