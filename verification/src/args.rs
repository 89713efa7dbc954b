//! The command line: which of the print-and-exit flags was given, what each
//! accepts beside it, and how arguments that are not UTF-8 pass through a
//! parser that reads only `&str`.

use vstd::prelude::*;
use vstd::string::StringExecFns;
use vstd::utf8::*;

use crate::text::{keep_newlines, show_bytes, shown_bytes};
use crate::text_buf::{chars_of, string_of};
use crate::utf8_units::{char_from_u32, lemma_valid_first_scalar_is_scalar, scalar_at};

verus! {

/// A mistake in the command line, printed like the parser's own errors.
pub struct UsageError(pub String);

impl UsageError {
    /// The message the error prints.
    pub fn message(&self) -> (m: String)
        ensures
            m@ == self.0@,
    {
        self.0.clone()
    }
}

/// A usage error saying `message`.
pub fn usage(message: String) -> (e: UsageError)
    ensures
        e.0@ == message@,
{
    UsageError(message)
}

/// The flags that do one thing and exit. At most one may be given, with only
/// the arguments that can change what it does.
#[derive(Clone, Copy, Debug, PartialEq, Eq, Structural)]
pub enum Action {
    DefaultConfig,
    DefaultTheme,
    Keybindings,
    Version,
}

/// The flag that asks for `action`.
pub open spec fn flag_text(action: Action) -> Seq<char> {
    match action {
        Action::DefaultConfig => "--print-default-config"@,
        Action::DefaultTheme => "--print-default-theme"@,
        Action::Keybindings => "--print-keybindings"@,
        Action::Version => "--version"@,
    }
}

/// Whether `action` accepts the argument named `argument` beside it: only
/// `--print-keybindings` reads the config, so only it accepts `--config` and
/// `--include`.
pub open spec fn accepts_argument(action: Action, argument: Seq<char>) -> bool {
    action == Action::Keybindings && (argument == "--config"@ || argument == "--include"@)
}

/// Whether `a` and `b` are the same text, character by character.
pub(crate) fn str_eq(a: &str, b: &str) -> (r: bool)
    ensures
        r == (a@ == b@),
{
    let x = chars_of(a);
    let y = chars_of(b);
    if x.len() != y.len() {
        return false;
    }
    let mut i: usize = 0;
    while i < x.len()
        invariant
            x@ == a@,
            y@ == b@,
            x@.len() == y@.len(),
            i <= x@.len(),
            forall|k: int| 0 <= k < i ==> x@[k] == y@[k],
        decreases x@.len() - i,
    {
        if x[i] != y[i] {
            return false;
        }
        i = i + 1;
    }
    assert(x@ =~= y@);
    true
}

impl Action {
    pub fn flag(self) -> (f: &'static str)
        ensures
            f@ == flag_text(self),
    {
        match self {
            Action::DefaultConfig => "--print-default-config",
            Action::DefaultTheme => "--print-default-theme",
            Action::Keybindings => "--print-keybindings",
            Action::Version => "--version",
        }
    }

    /// Only `--print-keybindings` reads the config, so only it accepts
    /// `--config` and `--include`; nothing accepts `--no-truecolor`.
    pub fn accepts(self, argument: &str) -> (b: bool)
        ensures
            b == accepts_argument(self, argument@),
    {
        self == Action::Keybindings && (str_eq(argument, "--config") || str_eq(
            argument,
            "--include",
        ))
    }
}

/// The command line as parsed: paths as the bytes they are.
pub struct Args {
    pub config: Option<Vec<u8>>,
    pub includes: Vec<Vec<u8>>,
    pub no_truecolor: bool,
    pub print_default_config: bool,
    pub print_default_theme: bool,
    pub print_keybindings: bool,
    pub version: bool,
    pub directory: Option<Vec<u8>>,
}

/// The print-and-exit flags given, in the order they are listed.
pub open spec fn selected_actions(args: Args) -> Seq<Action> {
    let a = if args.print_default_config { seq![Action::DefaultConfig] } else { Seq::empty() };
    let b = if args.print_default_theme { seq![Action::DefaultTheme] } else { Seq::empty() };
    let c = if args.print_keybindings { seq![Action::Keybindings] } else { Seq::empty() };
    let d = if args.version { seq![Action::Version] } else { Seq::empty() };
    a + b + c + d
}

/// The refusal of an argument given beside `action` that it ignores: the
/// first of `--config`, `--include` and `--no-truecolor` given and not
/// accepted, then a directory. `None` when there is none.
pub open spec fn unused_refusal(args: Args, action: Action) -> Option<Seq<char>> {
    if args.config is Some && !accepts_argument(action, "--config"@) {
        Some("--config"@ + " has no effect with "@ + flag_text(action) + "."@)
    } else if args.includes@.len() != 0 && !accepts_argument(action, "--include"@) {
        Some("--include"@ + " has no effect with "@ + flag_text(action) + "."@)
    } else if args.no_truecolor && !accepts_argument(action, "--no-truecolor"@) {
        Some("--no-truecolor"@ + " has no effect with "@ + flag_text(action) + "."@)
    } else if args.directory is Some {
        Some("A directory argument has no effect with "@ + flag_text(action) + "."@)
    } else {
        None
    }
}

/// The refusal of two print-and-exit flags given together.
pub open spec fn combined_refusal(first: Action, second: Action) -> Seq<char> {
    flag_text(first) + " and "@ + flag_text(second) + " cannot be combined."@
}

/// "`argument` has no effect with `action`'s flag."
fn no_effect(argument: &str, action: Action) -> (m: String)
    ensures
        m@ == argument@ + " has no effect with "@ + flag_text(action) + "."@,
{
    let mut m = String::from_str(argument);
    m.append(" has no effect with ");
    m.append(action.flag());
    m.append(".");
    m
}

pub fn reject_unused(args: &Args, action: Action) -> (r: Result<(), UsageError>)
    ensures
        match unused_refusal(*args, action) {
            Some(message) => r matches Err(e) && e.0@ == message,
            None => r is Ok,
        },
{
    if args.config.is_some() && !action.accepts("--config") {
        return Err(usage(no_effect("--config", action)));
    }
    if args.includes.len() != 0 && !action.accepts("--include") {
        return Err(usage(no_effect("--include", action)));
    }
    if args.no_truecolor && !action.accepts("--no-truecolor") {
        return Err(usage(no_effect("--no-truecolor", action)));
    }
    if args.directory.is_some() {
        let mut m = String::from_str("A directory argument has no effect with ");
        m.append(action.flag());
        m.append(".");
        return Err(usage(m));
    }
    Ok(())
}

pub fn selected_action(args: &Args) -> (r: Result<Option<Action>, UsageError>)
    ensures
        selected_actions(*args).len() == 0 ==> r == Ok::<Option<Action>, UsageError>(None),
        selected_actions(*args).len() == 1 ==> match unused_refusal(
            *args,
            selected_actions(*args)[0],
        ) {
            Some(message) => r matches Err(e) && e.0@ == message,
            None => r == Ok::<Option<Action>, UsageError>(Some(selected_actions(*args)[0])),
        },
        selected_actions(*args).len() >= 2 ==> (r matches Err(e) && e.0@ == combined_refusal(
            selected_actions(*args)[0],
            selected_actions(*args)[1],
        )),
{
    let mut selected: Vec<Action> = Vec::new();
    if args.print_default_config {
        selected.push(Action::DefaultConfig);
    }
    if args.print_default_theme {
        selected.push(Action::DefaultTheme);
    }
    if args.print_keybindings {
        selected.push(Action::Keybindings);
    }
    if args.version {
        selected.push(Action::Version);
    }
    assert(selected@ =~= selected_actions(*args));
    if selected.len() == 0 {
        Ok(None)
    } else if selected.len() == 1 {
        let action = selected[0];
        match reject_unused(args, action) {
            Ok(()) => Ok(Some(action)),
            Err(e) => Err(e),
        }
    } else {
        let mut m = String::from_str(selected[0].flag());
        m.append(" and ");
        m.append(selected[1].flag());
        m.append(" cannot be combined.");
        Err(usage(m))
    }
}

/// The exit status of a run: 0, or 128 plus the signal number when a
/// termination signal ended it (0 where that is no status).
pub open spec fn status_for(signal: Option<i32>) -> u8 {
    match signal {
        Some(s) => if 0 <= 128 + s <= 255 { (128 + s) as u8 } else { 0 },
        None => 0,
    }
}

/// 0, or 128 plus the signal number when a termination signal ended the run.
pub fn success_status(signal: Option<i32>) -> (status: u8)
    requires
        signal matches Some(s) ==> s <= i32::MAX - 128,
    ensures
        status == status_for(signal),
{
    match signal {
        Some(s) => {
            let code = 128 + s;
            if 0 <= code && code <= 255 {
                code as u8
            } else {
                0
            }
        },
        None => 0,
    }
}

/// The first character of the range an argument's invalid bytes are carried
/// in, less 0x80: each invalid byte becomes this plus the byte.
pub const ESCAPE_BASE: u32 = 0xF700;

/// Whether `c` is in the range that carries bytes (U+F780 to U+F7FF).
pub open spec fn in_escape_range(c: char) -> bool {
    0xF780 <= (c as u32) <= 0xF7FF
}

/// The character that carries `byte`.
pub open spec fn escape_char(byte: u8) -> char {
    (ESCAPE_BASE + byte) as char
}

/// What one character of an encoded argument stands for: the byte it
/// carries, or its own UTF-8 encoding.
pub open spec fn decoded_char(c: char) -> Seq<u8> {
    if in_escape_range(c) {
        seq![((c as u32) - ESCAPE_BASE) as u8]
    } else {
        encode_scalar(c as u32)
    }
}

/// `arg` encoded for a parser that reads only text: each valid UTF-8
/// encoding as its character, except that a character in the escape range is
/// carried byte by byte; every invalid byte carried as `escape_char`.
pub open spec fn encoded_arg(arg: Seq<u8>) -> Seq<char>
    decreases arg.len(),
{
    if arg.len() == 0 {
        Seq::empty()
    } else if valid_first_scalar(arg) {
        let c = decode_first_scalar(arg) as char;
        (if in_escape_range(c) {
            encode_scalar(c as u32).map_values(|b: u8| escape_char(b))
        } else {
            seq![c]
        }) + encoded_arg(pop_first_scalar(arg))
    } else {
        seq![escape_char(arg[0])] + encoded_arg(arg.drop_first())
    }
}

/// The bytes an encoded argument stands for.
pub open spec fn decoded_arg(encoded: Seq<char>) -> Seq<u8>
    decreases encoded.len(),
{
    if encoded.len() == 0 {
        Seq::empty()
    } else {
        decoded_arg(encoded.drop_last()) + decoded_char(encoded.last())
    }
}

/// The character that carries `byte`: U+F700 plus the byte.
pub fn escape(byte: u8) -> (c: char)
    ensures
        c == escape_char(byte),
        c as u32 == ESCAPE_BASE + byte,
{
    let code = ESCAPE_BASE + byte as u32;
    assert(is_scalar(code));
    match char_from_u32(code) {
        Some(c) => c,
        None => {
            assert(false);
            ' '
        },
    }
}

/// Appends the UTF-8 encoding of `c`.
fn push_utf8(out: &mut Vec<u8>, c: char)
    ensures
        final(out)@ == old(out)@ + encode_scalar(c as u32),
{
    let s = c as u32;
    if s <= 0x7F {
        out.push((s & 0x7F) as u8);
    } else if s <= 0x7FF {
        out.push(0xC0 | ((s >> 6) & 0x1F) as u8);
        out.push(0x80 | (s & 0x3F) as u8);
    } else if s <= 0xFFFF {
        proof {
            vstd::utf8::char_is_scalar(c);
        }
        out.push(0xE0 | ((s >> 12) & 0x0F) as u8);
        out.push(0x80 | ((s >> 6) & 0x3F) as u8);
        out.push(0x80 | (s & 0x3F) as u8);
    } else {
        proof {
            vstd::utf8::char_is_scalar(c);
        }
        out.push(0xF0 | ((s >> 18) & 0x7) as u8);
        out.push(0x80 | ((s >> 12) & 0x3F) as u8);
        out.push(0x80 | ((s >> 6) & 0x3F) as u8);
        out.push(0x80 | (s & 0x3F) as u8);
    }
}

/// The encoding of a valid first scalar gives back its bytes.
pub proof fn lemma_encode_first_scalar(bytes: Seq<u8>)
    requires
        valid_first_scalar(bytes),
    ensures
        encode_scalar(decode_first_scalar(bytes)) == bytes.subrange(
            0,
            length_of_first_scalar(bytes),
        ),
        is_scalar(decode_first_scalar(bytes)),
        ((decode_first_scalar(bytes) as char) as u32) == decode_first_scalar(bytes),
{
    let n = length_of_first_scalar(bytes);
    let t = bytes.subrange(0, n);
    assert(t[0] == bytes[0]);
    assert(n >= 2 ==> t[1] == bytes[1]);
    assert(n >= 3 ==> t[2] == bytes[2]);
    assert(n >= 4 ==> t[3] == bytes[3]);
    assert(valid_first_scalar(t));
    assert(pop_first_scalar(t).len() == 0);
    assert(valid_utf8(pop_first_scalar(t)));
    assert(valid_utf8(t));
    vstd::utf8::decode_utf8_first_scalar(t);
    assert(take_first_scalar(t) =~= t);
    lemma_valid_first_scalar_is_scalar(bytes);
}

/// argh parses `&str` alone, so a non-UTF-8 argument is carried through it
/// encoded: each invalid byte becomes `ESCAPE_BASE` + byte (U+F780 to U+F7FF),
/// and a character already in that range is encoded byte by byte, so
/// `decode_arg` restores every argument exactly.
pub fn encode_arg(arg: &[u8]) -> (encoded: String)
    ensures
        encoded@ == encoded_arg(arg@),
{
    let mut out: Vec<char> = Vec::new();
    let len = arg.len();
    let mut i: usize = 0;
    assert(arg@.skip(0) == arg@);
    while i < len
        invariant
            len == arg@.len(),
            i <= len,
            out@ + encoded_arg(arg@.skip(i as int)) == encoded_arg(arg@),
        decreases len - i,
    {
        let ghost rest = arg@.skip(i as int);
        match scalar_at(arg, i) {
            Some((c, n)) => {
                proof {
                    lemma_encode_first_scalar(rest);
                    vstd::utf8::char_u32_cast(c, decode_first_scalar(rest));
                }
                let u = c as u32;
                if 0xF780 <= u && u <= 0xF7FF {
                    let ghost before = out@;
                    let mut k: usize = 0;
                    while k < n
                        invariant
                            i + n <= len,
                            len == arg@.len(),
                            k <= n,
                            rest == arg@.skip(i as int),
                            n == length_of_first_scalar(rest),
                            encode_scalar(decode_first_scalar(rest)) == rest.subrange(0, n as int),
                            out@ == before + rest.subrange(0, k as int).map_values(
                                |b: u8| escape_char(b),
                            ),
                        decreases n - k,
                    {
                        let e = escape(arg[i + k]);
                        out.push(e);
                        k = k + 1;
                        assert(out@ =~= before + rest.subrange(0, k as int).map_values(
                            |b: u8| escape_char(b),
                        ));
                    }
                } else {
                    out.push(c);
                }
                assert(pop_first_scalar(rest) == arg@.skip(i + n));
                i = i + n;
            },
            None => {
                out.push(escape(arg[i]));
                assert(rest.drop_first() == arg@.skip(i + 1));
                i = i + 1;
            },
        }
    }
    assert(arg@.skip(len as int).len() == 0);
    string_of(out.as_slice())
}

/// The bytes `encode_arg` encoded into `encoded`.
pub fn decode_arg(encoded: &str) -> (bytes: Vec<u8>)
    ensures
        bytes@ == decoded_arg(encoded@),
{
    let chars = chars_of(encoded);
    let mut bytes: Vec<u8> = Vec::new();
    let mut i: usize = 0;
    while i < chars.len()
        invariant
            chars@ == encoded@,
            i <= chars@.len(),
            bytes@ == decoded_arg(chars@.take(i as int)),
        decreases chars@.len() - i,
    {
        let c = chars[i];
        let u = c as u32;
        if 0xF780 <= u && u <= 0xF7FF {
            bytes.push((u - ESCAPE_BASE) as u8);
        } else {
            push_utf8(&mut bytes, c);
        }
        assert(chars@.take(i + 1).drop_last() == chars@.take(i as int));
        i = i + 1;
    }
    assert(chars@.take(chars@.len() as int) == chars@);
    bytes
}

/// The signature argh's `from_str_fn` requires; every value decodes.
pub fn decode_path(value: &str) -> (path: Result<Vec<u8>, String>)
    ensures
        path matches Ok(p) && p@ == decoded_arg(value@),
{
    Ok(decode_arg(value))
}

/// argh's usage error message, with `encode_arg`'s escapes decoded and invalid
/// bytes shown as `\xNN`; its lines stay lines.
pub fn shown_argh_output(output: &str) -> (shown: String)
    ensures
        shown@ == shown_bytes(decoded_arg(output@), keep_newlines()),
{
    show_bytes(decode_arg(output).as_slice(), true)
}

/// Decoding distributes over concatenation.
proof fn lemma_decoded_concat(a: Seq<char>, b: Seq<char>)
    ensures
        decoded_arg(a + b) == decoded_arg(a) + decoded_arg(b),
    decreases b.len(),
{
    if b.len() == 0 {
        assert(a + b == a);
    } else {
        lemma_decoded_concat(a, b.drop_last());
        assert((a + b).drop_last() == a + b.drop_last());
        assert((a + b).last() == b.last());
    }
}

/// Decoding the escapes of `bytes` gives `bytes` back.
proof fn lemma_decoded_escapes(bytes: Seq<u8>)
    requires
        forall|k: int| 0 <= k < bytes.len() ==> bytes[k] >= 0x80,
    ensures
        decoded_arg(bytes.map_values(|b: u8| escape_char(b))) == bytes,
    decreases bytes.len(),
{
    let escaped = bytes.map_values(|b: u8| escape_char(b));
    if bytes.len() > 0 {
        let last = bytes.last();
        lemma_decoded_escapes(bytes.drop_last());
        assert(escaped.drop_last() == bytes.drop_last().map_values(|b: u8| escape_char(b)));
        assert(escaped.last() == escape_char(last));
        assert(ESCAPE_BASE + last <= 0xF7FF);
        assert(is_scalar((ESCAPE_BASE + last) as u32));
        assert(decoded_char(escape_char(last)) == seq![last]);
        assert(bytes == bytes.drop_last().push(last));
    }
}

/// Every argument reaches the parser and comes back from it exactly:
/// decoding what `encode_arg` made of `arg` gives `arg`.
pub proof fn decode_after_encode(arg: Seq<u8>)
    ensures
        decoded_arg(encoded_arg(arg)) == arg,
    decreases arg.len(),
{
    if arg.len() == 0 {
        return;
    }
    if valid_first_scalar(arg) {
        lemma_encode_first_scalar(arg);
        let c = decode_first_scalar(arg) as char;
        let n = length_of_first_scalar(arg);
        let rest = pop_first_scalar(arg);
        let head = if in_escape_range(c) {
            encode_scalar(c as u32).map_values(|b: u8| escape_char(b))
        } else {
            seq![c]
        };
        decode_after_encode(rest);
        lemma_decoded_concat(head, encoded_arg(rest));
        if in_escape_range(c) {
            let enc = encode_scalar(c as u32);
            assert(enc == arg.subrange(0, n));
            assert(forall|k: int| 0 <= k < enc.len() ==> enc[k] >= 0x80) by {
                assert(0x800 <= c as u32 <= 0xFFFF);
                assert(enc.len() == 3);
                assert(is_leading_byte_width_3(arg[0]));
                assert(is_continuation_byte(arg[1]));
                assert(is_continuation_byte(arg[2]));
            }
            lemma_decoded_escapes(enc);
        } else {
            assert(seq![c].drop_last() == Seq::<char>::empty());
            reveal_with_fuel(decoded_arg, 2);
            assert(decoded_arg(seq![c]) == decoded_char(c));
        }
        assert(arg == arg.subrange(0, n) + rest);
    } else {
        let b = arg[0];
        assert(b >= 0x80) by {
            if b <= 0x7f {
                assert(valid_first_scalar(arg));
            }
        }
        decode_after_encode(arg.drop_first());
        lemma_decoded_concat(seq![escape_char(b)], encoded_arg(arg.drop_first()));
        assert(seq![escape_char(b)].drop_last() == Seq::<char>::empty());
        assert(is_scalar((ESCAPE_BASE + b) as u32));
        reveal_with_fuel(decoded_arg, 2);
        assert(decoded_char(escape_char(b)) == seq![b]);
        assert(decoded_arg(seq![escape_char(b)]) == seq![b]);
        assert(arg == seq![b] + arg.drop_first());
    }
}

/// Text with no character in the escape range reaches the parser unchanged.
pub proof fn encode_keeps_plain_text(text: Seq<char>)
    requires
        forall|k: int| 0 <= k < text.len() ==> !in_escape_range(#[trigger] text[k]),
    ensures
        encoded_arg(encode_utf8(text)) == text,
    decreases text.len(),
{
    if text.len() > 0 {
        let bytes = encode_utf8(text);
        vstd::utf8::encode_utf8_first_scalar(text);
        vstd::utf8::char_u32_cast(text[0], decode_first_scalar(bytes));
        assert(pop_first_scalar(bytes) =~= encode_utf8(text.drop_first()));
        encode_keeps_plain_text(text.drop_first());
        assert(text == seq![text[0]] + text.drop_first());
    }
}

} // verus!
