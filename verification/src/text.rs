//! Outside text made safe to show: characters that would hide or disguise the
//! text around them are spelled as escapes.

use vstd::prelude::*;

use vstd::utf8::*;

use crate::text_buf::{chars_of, string_of};
use crate::utf8_units::scalar_at;

verus! {

/// Whether `c` is in the general category of control codes (Cc).
pub open spec fn is_control(c: char) -> bool {
    (c as u32) <= 0x1f || (0x7f <= (c as u32) && (c as u32) <= 0x9f)
}

/// Whether `c` is one of the format characters, default ignorables, separators
/// and blanks that draw nothing or reorder text, less the joiners, variation
/// selectors and tag characters that scripts and emoji need.
pub open spec fn is_format_or_blank(c: char) -> bool {
    let u = c as u32;
    ||| u == 0x00ad
    ||| u == 0x034f
    ||| 0x0600 <= u <= 0x0605
    ||| u == 0x061c
    ||| u == 0x06dd
    ||| u == 0x070f
    ||| 0x0890 <= u <= 0x0891
    ||| u == 0x08e2
    ||| 0x115f <= u <= 0x1160
    ||| 0x17b4 <= u <= 0x17b5
    ||| u == 0x180e
    ||| u == 0x200b
    ||| 0x200e <= u <= 0x200f
    ||| 0x2028 <= u <= 0x202e
    ||| 0x2060 <= u <= 0x206f
    ||| u == 0x2800
    ||| u == 0x3164
    ||| u == 0xfeff
    ||| u == 0xffa0
    ||| 0xfff0 <= u <= 0xfffb
    ||| u == 0x110bd
    ||| u == 0x110cd
    ||| 0x13430 <= u <= 0x1343f
    ||| 0x1bca0 <= u <= 0x1bca3
    ||| 0x1d173 <= u <= 0x1d17a
    ||| 0xe0000 <= u <= 0xe001f
    ||| 0xe0080 <= u <= 0xe00ff
    ||| 0xe01f0 <= u <= 0xe0fff
}

/// Whether `c` would hide or disguise the text around it when shown.
pub open spec fn disguising(c: char) -> bool {
    is_control(c) || is_format_or_blank(c)
}

/// Whether `c` would hide or disguise surrounding text when shown: a control
/// character, a bidi control, a line or paragraph separator, or a character
/// that draws nothing. ZWJ, ZWNJ, variation selectors and tag characters are
/// allowed, since scripts and emoji need them.
pub fn is_disguising(c: char) -> (b: bool)
    ensures
        b == disguising(c),
{
    let u = c as u32;
    u <= 0x1f || (0x7f <= u && u <= 0x9f) || u == 0x00ad || u == 0x034f || (0x0600 <= u && u
        <= 0x0605) || u == 0x061c || u == 0x06dd || u == 0x070f || (0x0890 <= u && u <= 0x0891)
        || u == 0x08e2 || (0x115f <= u && u <= 0x1160) || (0x17b4 <= u && u <= 0x17b5) || u
        == 0x180e || u == 0x200b || (0x200e <= u && u <= 0x200f) || (0x2028 <= u && u <= 0x202e)
        || (0x2060 <= u && u <= 0x206f) || u == 0x2800 || u == 0x3164 || u == 0xfeff || u
        == 0xffa0 || (0xfff0 <= u && u <= 0xfffb) || u == 0x110bd || u == 0x110cd || (0x13430
        <= u && u <= 0x1343f) || (0x1bca0 <= u && u <= 0x1bca3) || (0x1d173 <= u && u
        <= 0x1d17a) || (0xe0000 <= u && u <= 0xe001f) || (0xe0080 <= u && u <= 0xe00ff) || (
    0xe01f0 <= u && u <= 0xe0fff)
}

/// The lowercase hexadecimal digit for `d` (below 16).
pub open spec fn hex_digit(d: nat) -> char {
    if d < 10 {
        (('0' as u32) + d) as char
    } else {
        (('a' as u32) + d - 10) as char
    }
}

/// `n` in lowercase hexadecimal, without leading zeros ("0" for zero).
pub open spec fn hex_of(n: nat) -> Seq<char>
    decreases n,
{
    if n < 16 {
        seq![hex_digit(n)]
    } else {
        hex_of(n / 16).push(hex_digit(n % 16))
    }
}

/// `char::escape_default`: the C-like escapes for tab, carriage return, line
/// feed, quotes and backslash, printable ASCII as itself, and `\u{NNNN}` for
/// everything else.
pub open spec fn escape_default(c: char) -> Seq<char> {
    if c == '\t' {
        seq!['\\', 't']
    } else if c == '\r' {
        seq!['\\', 'r']
    } else if c == '\n' {
        seq!['\\', 'n']
    } else if c == '\'' || c == '"' || c == '\\' {
        seq!['\\', c]
    } else if 0x20 <= (c as u32) <= 0x7e {
        seq![c]
    } else {
        seq!['\\', 'u', '{'] + hex_of(c as nat) + seq!['}']
    }
}

/// What one character of `text` becomes: its escape when it disguises and is
/// not one `keep` accepts, itself otherwise.
pub open spec fn shown_char(c: char, keep: spec_fn(char) -> bool) -> Seq<char> {
    if disguising(c) && !keep(c) {
        escape_default(c)
    } else {
        seq![c]
    }
}

/// `text` with every character replaced by `shown_char`.
pub open spec fn shown_text(text: Seq<char>, keep: spec_fn(char) -> bool) -> Seq<char>
    decreases text.len(),
{
    if text.len() == 0 {
        Seq::empty()
    } else {
        shown_text(text.drop_last(), keep) + shown_char(text.last(), keep)
    }
}

/// What `visible` keeps: nothing.
pub open spec fn keep_nothing() -> spec_fn(char) -> bool {
    |c: char| false
}

/// What `escape_for_terminal` keeps: newlines.
pub open spec fn keep_newlines() -> spec_fn(char) -> bool {
    |c: char| c == '\n'
}

/// The hexadecimal digit for `d`.
fn push_hex_digit(out: &mut Vec<char>, d: u32)
    requires
        d < 16,
    ensures
        final(out)@ == old(out)@.push(hex_digit(d as nat)),
{
    let c = if d < 10 {
        char_of_ascii((0x30 + d) as u8)
    } else {
        char_of_ascii((0x61 + d - 10) as u8)
    };
    out.push(c);
}

/// The character an ASCII byte stands for.
pub fn char_of_ascii(b: u8) -> (c: char)
    requires
        b < 128,
    ensures
        c as u32 == b as u32,
{
    b as char
}

/// Appends `n` in lowercase hexadecimal.
pub fn push_hex(out: &mut Vec<char>, n: u32)
    ensures
        final(out)@ == old(out)@ + hex_of(n as nat),
    decreases n,
{
    if n >= 16 {
        push_hex(out, n / 16);
    }
    push_hex_digit(out, n % 16);
}

/// Appends `char::escape_default` of `c`.
pub fn push_escaped(out: &mut Vec<char>, c: char)
    ensures
        final(out)@ == old(out)@ + escape_default(c),
{
    let u = c as u32;
    if c == '\t' {
        out.push('\\');
        out.push('t');
    } else if c == '\r' {
        out.push('\\');
        out.push('r');
    } else if c == '\n' {
        out.push('\\');
        out.push('n');
    } else if c == '\'' || c == '"' || c == '\\' {
        out.push('\\');
        out.push(c);
    } else if 0x20 <= u && u <= 0x7e {
        out.push(c);
    } else {
        out.push('\\');
        out.push('u');
        out.push('{');
        push_hex(out, u);
        out.push('}');
    }
}

/// `text` with every `is_disguising` character spelled as an escape, but for
/// the newlines when `keep_newline`.
fn escape_disguising(text: &str, keep_newline: bool) -> (shown: String)
    ensures
        shown@ == shown_text(text@, if keep_newline { keep_newlines() } else { keep_nothing() }),
{
    let ghost keep = if keep_newline { keep_newlines() } else { keep_nothing() };
    let chars = chars_of(text);
    let mut out: Vec<char> = Vec::new();
    let mut i: usize = 0;
    while i < chars.len()
        invariant
            chars@ == text@,
            i <= chars@.len(),
            keep == (if keep_newline { keep_newlines() } else { keep_nothing() }),
            out@ == shown_text(chars@.take(i as int), keep),
        decreases chars@.len() - i,
    {
        let c = chars[i];
        let ghost before = out@;
        if is_disguising(c) && !(keep_newline && c == '\n') {
            push_escaped(&mut out, c);
        } else {
            out.push(c);
        }
        assert(chars@.take(i + 1).drop_last() == chars@.take(i as int));
        assert(out@ == before + shown_char(c, keep));
        i = i + 1;
    }
    assert(chars@.take(chars@.len() as int) == chars@);
    string_of(out.as_slice())
}

/// `text` with every `is_disguising` character spelled as an escape. All
/// external text shown on screen or logged passes through here. A newline is
/// escaped too, so a name cannot forge a log line.
pub fn visible(text: &str) -> (shown: String)
    ensures
        shown@ == shown_text(text@, keep_nothing()),
        forall|i: int| 0 <= i < shown@.len() ==> !disguising(#[trigger] shown@[i]),
{
    proof {
        visible_text_lets_no_disguising_character_through(text@);
    }
    escape_disguising(text, false)
}

/// `visible` for terminal output outside the interface. Newlines are kept.
pub fn escape_for_terminal(text: &str) -> (shown: String)
    ensures
        shown@ == shown_text(text@, keep_newlines()),
        forall|i: int| 0 <= i < shown@.len() ==> !disguising(#[trigger] shown@[i]) || shown@[i] == '\n',
{
    proof {
        visible_text_lets_no_disguising_character_through(text@);
    }
    escape_disguising(text, true)
}

/// A byte that is not UTF-8, spelled `\xNN` in lowercase hexadecimal.
pub open spec fn byte_escape(b: u8) -> Seq<char> {
    seq!['\\', 'x', hex_digit((b / 16) as nat), hex_digit((b % 16) as nat)]
}

/// `bytes` shown as `visible` shows text: every valid UTF-8 encoding as the
/// character it encodes (escaped when it disguises), every other byte as
/// `byte_escape`.
pub open spec fn shown_bytes(bytes: Seq<u8>, keep: spec_fn(char) -> bool) -> Seq<char>
    decreases bytes.len(),
{
    if bytes.len() == 0 {
        Seq::empty()
    } else if valid_first_scalar(bytes) {
        shown_char(decode_first_scalar(bytes) as char, keep) + shown_bytes(
            pop_first_scalar(bytes),
            keep,
        )
    } else {
        byte_escape(bytes[0]) + shown_bytes(bytes.drop_first(), keep)
    }
}

/// Appends `c`, escaped when it disguises, but for a newline when
/// `keep_newline`.
fn push_shown(out: &mut Vec<char>, c: char, keep_newline: bool)
    ensures
        final(out)@ == old(out)@ + shown_char(
            c,
            if keep_newline { keep_newlines() } else { keep_nothing() },
        ),
{
    if is_disguising(c) && !(keep_newline && c == '\n') {
        push_escaped(out, c);
    } else {
        out.push(c);
    }
}

/// `visible` for text that need not be UTF-8: an invalid byte is spelled
/// `\xNN`, so it does not look like U+FFFD.
pub fn visible_os(text: &[u8]) -> (shown: String)
    ensures
        shown@ == shown_bytes(text@, keep_nothing()),
{
    show_bytes(text, false)
}

/// `text` shown as `visible_os` shows it, keeping newlines when
/// `keep_newline`.
pub(crate) fn show_bytes(text: &[u8], keep_newline: bool) -> (shown: String)
    ensures
        shown@ == shown_bytes(text@, if keep_newline { keep_newlines() } else { keep_nothing() }),
{
    let ghost keep = if keep_newline { keep_newlines() } else { keep_nothing() };
    let mut out: Vec<char> = Vec::new();
    let mut i: usize = 0;
    let len = text.len();
    assert(text@.skip(0) == text@);
    while i < len
        invariant
            len == text@.len(),
            i <= len,
            keep == (if keep_newline { keep_newlines() } else { keep_nothing() }),
            out@ + shown_bytes(text@.skip(i as int), keep) == shown_bytes(text@, keep),
        decreases len - i,
    {
        let ghost rest = text@.skip(i as int);
        match scalar_at(text, i) {
            Some((c, n)) => {
                proof {
                    vstd::utf8::char_u32_cast(c, decode_first_scalar(rest));
                }
                push_shown(&mut out, c, keep_newline);
                assert(pop_first_scalar(rest) == text@.skip(i + n));
                i = i + n;
            },
            None => {
                let b = text[i];
                assert(rest[0] == b);
                out.push('\\');
                out.push('x');
                push_hex_digit(&mut out, (b / 16) as u32);
                push_hex_digit(&mut out, (b % 16) as u32);
                assert(rest.drop_first() == text@.skip(i + 1));
                i = i + 1;
            },
        }
    }
    assert(text@.skip(len as int).len() == 0);
    string_of(out.as_slice())
}

/// Showing text distributes over concatenation.
pub proof fn lemma_shown_text_concat(a: Seq<char>, b: Seq<char>, keep: spec_fn(char) -> bool)
    ensures
        shown_text(a + b, keep) == shown_text(a, keep) + shown_text(b, keep),
    decreases b.len(),
{
    if b.len() == 0 {
        assert(a + b == a);
    } else {
        lemma_shown_text_concat(a, b.drop_last(), keep);
        assert((a + b).drop_last() == a + b.drop_last());
        assert((a + b).last() == b.last());
    }
}

/// Text that is valid UTF-8 is shown by `visible_os` as `visible` shows it:
/// showing the encoding of `text` gives what showing `text` gives.
pub proof fn shown_bytes_of_valid_text(text: Seq<char>, keep: spec_fn(char) -> bool)
    ensures
        shown_bytes(encode_utf8(text), keep) == shown_text(text, keep),
    decreases text.len(),
{
    if text.len() > 0 {
        let bytes = encode_utf8(text);
        vstd::utf8::encode_utf8_first_scalar(text);
        vstd::utf8::char_u32_cast(text[0], decode_first_scalar(bytes));
        assert(pop_first_scalar(bytes) =~= encode_utf8(text.drop_first()));
        shown_bytes_of_valid_text(text.drop_first(), keep);
        lemma_shown_text_concat(seq![text[0]], text.drop_first(), keep);
        assert(seq![text[0]].drop_last() == Seq::<char>::empty());
        reveal_with_fuel(shown_text, 2);
        assert(shown_text(seq![text[0]], keep) == shown_char(text[0], keep));
        assert(text == seq![text[0]] + text.drop_first());
    }
}

/// Whether `c` is printable ASCII, which never disguises.
pub open spec fn printable_ascii(c: char) -> bool {
    0x20 <= (c as u32) <= 0x7e
}

proof fn lemma_hex_digit_printable(d: nat)
    requires
        d < 16,
    ensures
        printable_ascii(hex_digit(d)),
{
    if d < 10 {
        assert(is_scalar((('0' as u32) + d) as u32));
    } else {
        assert(is_scalar((('a' as u32) + d - 10) as u32));
    }
}

proof fn lemma_hex_printable(n: nat)
    ensures
        forall|i: int| 0 <= i < hex_of(n).len() ==> printable_ascii(#[trigger] hex_of(n)[i]),
    decreases n,
{
    if n >= 16 {
        lemma_hex_printable(n / 16);
        lemma_hex_digit_printable(n % 16);
        let front = hex_of(n / 16);
        assert forall|i: int| 0 <= i < hex_of(n).len() implies printable_ascii(
            #[trigger] hex_of(n)[i],
        ) by {
            if i < front.len() {
                assert(hex_of(n)[i] == front[i]);
            }
        }
    } else {
        lemma_hex_digit_printable(n);
    }
}

/// What stands in for a disguising character is printable ASCII.
proof fn lemma_escape_printable(c: char)
    requires
        disguising(c),
    ensures
        forall|i: int|
            0 <= i < escape_default(c).len() ==> printable_ascii(#[trigger] escape_default(c)[i]),
{
    lemma_hex_printable(c as nat);
    let h = hex_of(c as nat);
    let e = escape_default(c);
    if !(c == '\t' || c == '\r' || c == '\n') {
        assert(e == seq!['\\', 'u', '{'] + h + seq!['}']);
        assert forall|i: int| 0 <= i < e.len() implies printable_ascii(#[trigger] e[i]) by {
            if 3 <= i < 3 + h.len() {
                assert(e[i] == h[i - 3]);
            }
        }
    }
}

/// Nothing that hides or disguises text survives showing it: every character
/// of what `text` is shown as is one that does not disguise, or one `keep`
/// keeps.
pub proof fn shown_text_hides_nothing(text: Seq<char>, keep: spec_fn(char) -> bool)
    ensures
        forall|i: int|
            0 <= i < shown_text(text, keep).len() ==> !disguising(
                #[trigger] shown_text(text, keep)[i],
            ) || keep(shown_text(text, keep)[i]),
    decreases text.len(),
{
    if text.len() > 0 {
        shown_text_hides_nothing(text.drop_last(), keep);
        let c = text.last();
        let front = shown_text(text.drop_last(), keep);
        let piece = shown_char(c, keep);
        if disguising(c) && !keep(c) {
            lemma_escape_printable(c);
        }
        assert forall|i: int| 0 <= i < (front + piece).len() implies !disguising(
            #[trigger] (front + piece)[i],
        ) || keep((front + piece)[i]) by {
            if i >= front.len() {
                assert((front + piece)[i] == piece[i - front.len()]);
            } else {
                assert((front + piece)[i] == front[i]);
            }
        }
    }
}

/// Line and paragraph separators (U+2028, U+2029) and the bidirectional
/// embeddings and overrides (U+202A to U+202E) disguise text: a name holding
/// one could break a line of the interface or reorder what follows it.
pub proof fn separators_and_bidi_controls_disguise(c: char)
    requires
        0x2028 <= c as u32 <= 0x202e,
    ensures
        disguising(c),
{
}

proof fn lemma_hex_is_printable(n: nat)
    ensures
        forall|i: int| 0 <= i < hex_of(n).len() ==> 0x20 <= (#[trigger] hex_of(n)[i]) as u32 <= 0x7e,
    decreases n,
{
    if n >= 16 {
        lemma_hex_is_printable(n / 16);
        let front = hex_of(n / 16);
        assert forall|i: int| 0 <= i < hex_of(n).len() implies 0x20 <= (#[trigger] hex_of(n)[i]) as u32
            <= 0x7e by {
            if i < front.len() {
                assert(hex_of(n)[i] == front[i]);
            }
        }
    }
}

/// An escape is printable ASCII only.
proof fn lemma_escape_is_printable(c: char)
    ensures
        forall|i: int|
            0 <= i < escape_default(c).len() ==> 0x20 <= (#[trigger] escape_default(c)[i]) as u32
                <= 0x7e,
{
    if !(c == '\t' || c == '\r' || c == '\n' || c == '\'' || c == '"' || c == '\\' || 0x20 <= (
    c as u32) <= 0x7e) {
        lemma_hex_is_printable(c as nat);
        let e = escape_default(c);
        let h = hex_of(c as nat);
        assert forall|i: int| 0 <= i < e.len() implies 0x20 <= (#[trigger] e[i]) as u32 <= 0x7e by {
            if 3 <= i < 3 + h.len() {
                assert(e[i] == h[i - 3]);
            }
        }
    }
}

/// Text made safe to show holds no character that disguises it but those
/// `keep` lets through: each one is replaced by its printable escape.
pub proof fn shown_text_holds_no_disguising_character(text: Seq<char>, keep: spec_fn(char) -> bool)
    ensures
        forall|i: int|
            0 <= i < shown_text(text, keep).len() ==> !disguising(#[trigger] shown_text(text, keep)[i])
                || keep(shown_text(text, keep)[i]),
    decreases text.len(),
{
    if text.len() > 0 {
        shown_text_holds_no_disguising_character(text.drop_last(), keep);
        let front = shown_text(text.drop_last(), keep);
        let c = text.last();
        let tail = shown_char(c, keep);
        lemma_escape_is_printable(c);
        let all = shown_text(text, keep);
        assert(all == front + tail);
        assert forall|i: int| 0 <= i < all.len() implies !disguising(#[trigger] all[i]) || keep(all[i]) by {
            if i < front.len() {
                assert(all[i] == front[i]);
            } else {
                assert(all[i] == tail[i - front.len()]);
            }
        }
    }
}

/// What `visible` shows holds no character that disguises text; what
/// `escape_for_terminal` shows holds none but newlines.
pub proof fn visible_text_lets_no_disguising_character_through(text: Seq<char>)
    ensures
        forall|i: int|
            0 <= i < shown_text(text, keep_nothing()).len() ==> !disguising(
                #[trigger] shown_text(text, keep_nothing())[i],
            ),
        forall|i: int|
            0 <= i < shown_text(text, keep_newlines()).len() ==> !disguising(
                #[trigger] shown_text(text, keep_newlines())[i],
            ) || shown_text(text, keep_newlines())[i] == '\n',
{
    shown_text_holds_no_disguising_character(text, keep_nothing());
    shown_text_holds_no_disguising_character(text, keep_newlines());
}

/// What disguises text: every control character (C0, DEL and C1), the
/// invisible formatting marks, the bidi marks, embeddings, overrides and
/// isolates, the line and paragraph separators, the byte order mark and the
/// characters that draw nothing.
pub proof fn controls_and_invisible_marks_disguise(c: char)
    requires
        c as u32 <= 0x1f || 0x7f <= c as u32 <= 0x9f || c as u32 == 0x00ad || c as u32 == 0x200b
            || 0x200e <= c as u32 <= 0x200f || 0x2028 <= c as u32 <= 0x202e || 0x2060 <= c as u32
            <= 0x206f || c as u32 == 0xfeff || c as u32 == 0x2800 || c as u32 == 0x3164,
    ensures
        disguising(c),
{
}

/// What scripts and emoji need is kept: printable ASCII, the zero-width
/// joiner and non-joiner, the variation selectors and the tag characters
/// used by emoji flags.
pub proof fn what_scripts_and_emoji_need_is_kept(c: char)
    requires
        0x20 <= c as u32 <= 0x7e || c as u32 == 0x200c || c as u32 == 0x200d || 0xfe00 <= c as u32
            <= 0xfe0f || 0xe0020 <= c as u32 <= 0xe007f || 0xe0100 <= c as u32 <= 0xe01ef,
    ensures
        !disguising(c),
{
}

} // verus!
