//! What a row that carries media says before anything is loaded.
//!
//! A label, never a picture: nothing is fetched or decoded until it is asked for. So a label has to
//! carry enough to decide with, and to say that there is something to open.

use crate::model::{Media, MediaView};
use crate::text;
use crate::text::{chars_of, digit_char, push_i64, push_two, push_u64};
use vstd::prelude::*;
use vstd::string::*;

verus! {

/// The characters a font has glyphs for. One outside of it paints nothing at all.
#[derive(Debug)]
pub struct Atlas {
    pub glyphs: Vec<char>,
}

impl Atlas {
    /// Whether the font has a glyph for a character.
    pub fn has(&self, c: char) -> (r: bool)
        ensures
            r == self.glyphs@.contains(c),
    {
        let mut i: usize = 0;
        while i < self.glyphs.len()
            invariant
                i <= self.glyphs.len(),
                forall|k: int| 0 <= k < i ==> self.glyphs@[k] != c,
            decreases self.glyphs.len() - i,
        {
            if self.glyphs[i] == c {
                return true;
            }
            i += 1;
        }
        false
    }
}

/// Whether every character of some text has a glyph, and there is a character at all.
pub open spec fn drawable(glyphs: Seq<char>, s: Seq<char>) -> bool {
    s.len() > 0 && forall|i: int| 0 <= i < s.len() ==> glyphs.contains(#[trigger] s[i])
}

/// Whether a font can draw every character of some text, and there is a character at all.
pub fn renderable(font: &Atlas, s: &str) -> (r: bool)
    ensures
        r == drawable(font.glyphs@, s@),
{
    let v = chars_of(s);
    let mut i: usize = 0;
    while i < v.len()
        invariant
            v@ == s@,
            i <= v.len(),
            forall|k: int| 0 <= k < i ==> font.glyphs@.contains(#[trigger] v@[k]),
        decreases v.len() - i,
    {
        if !font.has(v[i]) {
            assert(!font.glyphs@.contains(s@[i as int]));
            return false;
        }
        i += 1;
    }
    v.len() > 0
}

// ---- durations and sizes --------------------------------------------------------------------------

/// `M:SS`, or `H:MM:SS` from an hour on. Nothing runs for less than no time.
pub open spec fn duration_words(seconds: int) -> Seq<char> {
    let s = if seconds < 0 {
        0
    } else {
        seconds
    };
    if s >= 3600 {
        text::decimal((s / 3600) as nat) + seq![':'] + text::two_digits(s % 3600 / 60) + seq![':']
            + text::two_digits(s % 60)
    } else {
        text::decimal((s / 60) as nat) + seq![':'] + text::two_digits(s % 60)
    }
}

fn push_mmss(out: &mut String, seconds: i32)
    ensures
        final(out)@ == old(out)@ + duration_words(seconds as int),
{
    let ghost start = out@;
    let s: u64 = if seconds < 0 {
        0
    } else {
        seconds as u64
    };
    if s >= 3600 {
        push_u64(out, s / 3600);
        out.push(':');
        push_two(out, s % 3600 / 60);
        out.push(':');
        push_two(out, s % 60);
    } else {
        push_u64(out, s / 60);
        out.push(':');
        push_two(out, s % 60);
    }
    assert(out@ =~= start + duration_words(seconds as int));
}

/// `M:SS`, or `H:MM:SS` from an hour on.
pub fn mmss(seconds: i32) -> (r: String)
    ensures
        r@ == duration_words(seconds as int),
{
    let mut out = String::new();
    push_mmss(&mut out, seconds);
    assert(out@ =~= duration_words(seconds as int));
    out
}

/// The distance between neighbouring double precision numbers around a whole number: one below
/// two to the 53rd, and twice as far for each doubling after it.
pub open spec fn spacing(n: nat) -> nat
    decreases n,
{
    if n < 0x20_0000_0000_0000 {
        1
    } else {
        2 * spacing(n / 2)
    }
}

/// A whole number as the nearest double precision one, the even one of two.
pub open spec fn as_double(n: nat) -> nat {
    let u = spacing(n);
    let q = n / u;
    let r = n % u;
    if 2 * r > u || (2 * r == u && q % 2 == 1) {
        (q + 1) * u
    } else {
        q * u
    }
}

/// How many tenths of a megabyte some bytes are, to the nearest, the even one of two.
pub open spec fn tenths(n: nat) -> nat {
    let q = n * 10 / 0x10_0000;
    let r = n * 10 % 0x10_0000;
    if r > 0x8_0000 || (r == 0x8_0000 && q % 2 == 1) {
        q + 1
    } else {
        q
    }
}

/// A size the way a person reads it: bytes, whole kilobytes, or megabytes to a tenth, taken through
/// a double precision number.
pub open spec fn size_words(bytes: int) -> Seq<char> {
    if bytes < 1024 {
        text::signed_decimal(bytes)
    } else if bytes < 0x10_0000 {
        text::decimal((bytes / 1024) as nat) + " KB"@
    } else {
        let t = tenths(as_double(bytes as nat));
        text::decimal(t / 10) + seq!['.', text::digit(t % 10)] + " MB"@
    }
}

fn nearest_double(n: u64) -> (r: u64)
    requires
        n < 0x8000_0000_0000_0000,
    ensures
        r == as_double(n as nat),
        r <= 0x8000_0000_0000_0000,
{
    let mut u: u64 = 1;
    let mut m: u64 = n;
    while m >= 0x20_0000_0000_0000
        invariant
            n < 0x8000_0000_0000_0000,
            1 <= u,
            u * m <= n,
            spacing(n as nat) == u * spacing(m as nat),
        decreases m,
    {
        proof {
            assert(u <= 1024) by (nonlinear_arith)
                requires
                    u * m <= n,
                    m >= 0x20_0000_0000_0000,
                    n < 0x8000_0000_0000_0000,
            ;
            let half = (m / 2) as nat;
            assert(spacing(m as nat) == 2 * spacing(half));
            assert(u * (2 * spacing(half)) == (u * 2) * spacing(half)) by (nonlinear_arith);
            assert((u * 2) * (m / 2) <= u * m) by (nonlinear_arith)
                requires
                    2 * (m / 2) <= m,
                    u >= 1,
            ;
        }
        m = m / 2;
        u = u * 2;
    }
    assert(u == spacing(n as nat)) by {
        assert(spacing(m as nat) == 1);
        assert(u * spacing(m as nat) == u) by (nonlinear_arith)
            requires
                spacing(m as nat) == 1,
        ;
    }
    proof {
        lemma_spacing_divides(n as nat);
    }
    let q: u64 = n / u;
    let r: u64 = n % u;
    proof {
        assert(q * u + r == n) by (nonlinear_arith)
            requires
                q == n / u,
                r == n % u,
                u > 0,
        ;
        assert((q + 1) * u == q * u + u) by (nonlinear_arith);
    }
    if 2 * r > u || (2 * r == u && q % 2 == 1) {
        proof {
            lemma_rounding_up(n as nat, u as nat, q as nat, r as nat);
        }
        (q + 1) * u
    } else {
        q * u
    }
}

/// Rounding a number below two to the 63rd up to a multiple of its spacing stays within that power.
proof fn lemma_rounding_up(n: nat, u: nat, q: nat, r: nat)
    requires
        n < 0x8000_0000_0000_0000,
        u == spacing(n),
        q * u + r == n,
        0 < r < u,
    ensures
        (q + 1) * u <= 0x8000_0000_0000_0000,
{
    lemma_spacing_divides(n);
    let k = 0x8000_0000_0000_0000nat / u;
    assert(k * u == 0x8000_0000_0000_0000);
    assert(q < k) by (nonlinear_arith)
        requires
            q * u + r == n,
            n < 0x8000_0000_0000_0000,
            k * u == 0x8000_0000_0000_0000,
            u > 0,
    ;
    assert((q + 1) * u <= k * u) by (nonlinear_arith)
        requires
            q + 1 <= k,
    ;
}

/// The spacing below two to the 63rd is a power of two that divides it.
proof fn lemma_spacing_divides(n: nat)
    requires
        n < 0x8000_0000_0000_0000,
    ensures
        1 <= spacing(n) <= 1024,
        (0x8000_0000_0000_0000nat / spacing(n)) * spacing(n) == 0x8000_0000_0000_0000,
{
    reveal_with_fuel(spacing, 12);
    let u = spacing(n);
    assert(u == 1 || u == 2 || u == 4 || u == 8 || u == 16 || u == 32 || u == 64 || u == 128 || u
        == 256 || u == 512 || u == 1024);
    assert((0x8000_0000_0000_0000nat / u) * u == 0x8000_0000_0000_0000) by (nonlinear_arith)
        requires
            u == 1 || u == 2 || u == 4 || u == 8 || u == 16 || u == 32 || u == 64 || u == 128 || u
                == 256 || u == 512 || u == 1024,
    ;
}

fn push_size(out: &mut String, bytes: i64)
    ensures
        final(out)@ == old(out)@ + size_words(bytes as int),
{
    let ghost start = out@;
    if bytes < 1024 {
        push_i64(out, bytes);
    } else if bytes < 0x10_0000 {
        push_u64(out, (bytes / 1024) as u64);
        out.append(" KB");
    } else {
        let d: u64 = nearest_double(bytes as u64);
        let wide: u128 = d as u128 * 10;
        let q: u64 = (wide / 0x10_0000) as u64;
        let r: u64 = (wide % 0x10_0000) as u64;
        let t: u64 = if r > 0x8_0000 || (r == 0x8_0000 && q % 2 == 1) {
            q + 1
        } else {
            q
        };
        assert(t == tenths(d as nat));
        push_u64(out, t / 10);
        out.push('.');
        out.push(digit_char((t % 10) as u8));
        out.append(" MB");
    }
    assert(out@ =~= start + size_words(bytes as int));
}

/// A size the way a person reads it.
pub fn size_fmt(bytes: i64) -> (r: String)
    ensures
        r@ == size_words(bytes as int),
{
    let mut out = String::new();
    push_size(&mut out, bytes);
    assert(out@ =~= size_words(bytes as int));
    out
}

// ---- labels ---------------------------------------------------------------------------------------

/// The mark of a kind of media: its glyph where the font has it, else the word.
pub open spec fn mark_words(glyphs: Seq<char>, glyph: char, word: Seq<char>) -> Seq<char> {
    if glyphs.contains(glyph) {
        seq![glyph]
    } else {
        word
    }
}

/// What a row that carries media says.
pub open spec fn label_words(m: MediaView, glyphs: Seq<char>) -> Seq<char> {
    match m {
        MediaView::Photo { size, .. } => {
            let mark = mark_words(glyphs, '\u{1F5BC}', "Foto"@);
            if size > 0 {
                seq!['['] + mark + seq![' '] + size_words(size as int) + seq![']']
            } else {
                seq!['['] + mark + seq![']']
            }
        },
        MediaView::Sticker { alt, .. } => if drawable(glyphs, alt) {
            seq!['['] + alt + seq![']']
        } else {
            "[Sticker]"@
        },
        MediaView::Voice { duration, .. } => seq!['['] + mark_words(glyphs, '\u{1F3A4}', "Voz"@)
            + seq![' '] + duration_words(duration as int) + seq![']'],
        MediaView::Audio { filename, duration, .. } => seq!['['] + named(
            mark_words(glyphs, '\u{1F3B5}', "Audio"@),
            filename,
        ) + duration_words(duration as int) + seq![']'],
        MediaView::File { filename, size, .. } => seq!['['] + named(
            mark_words(glyphs, '\u{1F4CE}', "Arquivo"@),
            filename,
        ) + size_words(size as int) + seq![']'],
        MediaView::Unknown => "[Midia]"@,
    }
}

/// A mark, and behind it a file name where there is one.
pub open spec fn named(mark: Seq<char>, filename: Seq<char>) -> Seq<char> {
    if filename.len() == 0 {
        mark + seq![' ']
    } else {
        mark + seq![' '] + filename + " · "@
    }
}

fn push_mark(out: &mut String, font: &Atlas, glyph: char, word: &str)
    ensures
        final(out)@ == old(out)@ + mark_words(font.glyphs@, glyph, word@),
{
    let ghost start = out@;
    if font.has(glyph) {
        out.push(glyph);
    } else {
        out.append(word);
    }
    assert(out@ =~= start + mark_words(font.glyphs@, glyph, word@));
}

fn push_name(out: &mut String, filename: &String)
    ensures
        final(out)@ == old(out)@ + (if filename@.len() == 0 {
            seq![' ']
        } else {
            seq![' '] + filename@ + " · "@
        }),
{
    let ghost start = out@;
    out.push(' ');
    if !filename.as_str().is_empty() {
        out.append(filename.as_str());
        out.append(" · ");
        assert(out@ =~= start + (seq![' '] + filename@ + " · "@));
    } else {
        assert(out@ =~= start + seq![' ']);
    }
}

/// What a row that carries media says. A glyph for the kind, and the word when the font has no such
/// glyph: a missing one paints nothing, and a label with a hole in it reads as a fault.
pub fn media_label(media: &Media, font: &Atlas) -> (r: String)
    ensures
        r@ == label_words(media@, font.glyphs@),
{
    let mut out = "[".to_owned();
    proof {
        reveal_strlit("[");
    }
    assert(out@ =~= seq!['[']);
    match media {
        Media::Photo { size, .. } => {
            push_mark(&mut out, font, '\u{1F5BC}', "Foto");
            if *size > 0 {
                out.push(' ');
                push_size(&mut out, *size);
            }
        },
        Media::Sticker { alt, .. } => {
            if !renderable(font, alt.as_str()) {
                return "[Sticker]".to_owned();
            }
            out.append(alt.as_str());
        },
        Media::Voice { duration, .. } => {
            push_mark(&mut out, font, '\u{1F3A4}', "Voz");
            out.push(' ');
            push_mmss(&mut out, *duration);
        },
        Media::Audio { filename, duration, .. } => {
            push_mark(&mut out, font, '\u{1F3B5}', "Audio");
            push_name(&mut out, filename);
            push_mmss(&mut out, *duration);
        },
        Media::File { filename, size, .. } => {
            push_mark(&mut out, font, '\u{1F4CE}', "Arquivo");
            push_name(&mut out, filename);
            push_size(&mut out, *size);
        },
        Media::Unknown => {
            return "[Midia]".to_owned();
        },
    }
    out.push(']');
    assert(out@ =~= label_words(media@, font.glyphs@));
    out
}

/// A label never depends on a glyph that is not there: with a font that has none of the marks, every
/// label but a sticker's that can be drawn is written in words.
pub proof fn a_label_does_not_rely_on_a_missing_glyph(m: MediaView, glyphs: Seq<char>)
    requires
        !glyphs.contains('\u{1F5BC}'),
        !glyphs.contains('\u{1F3A4}'),
        !glyphs.contains('\u{1F3B5}'),
        !glyphs.contains('\u{1F4CE}'),
    ensures
        m matches MediaView::Sticker { alt, .. } && !drawable(glyphs, alt) ==> label_words(m, glyphs)
            == "[Sticker]"@,
        m matches MediaView::Photo { size, .. } && size <= 0 ==> label_words(m, glyphs)
            == seq!['['] + "Foto"@ + seq![']'],
        m matches MediaView::Voice { duration, .. } ==> label_words(m, glyphs) == seq!['['] + "Voz"@
            + seq![' '] + duration_words(duration as int) + seq![']'],
{
}

} // verus!
