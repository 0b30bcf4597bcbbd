use vstd::prelude::*;

use crate::config::AnsiColor;
use crate::style::{colored, fg16, fg_params, reset, sgr, style_params, styled};
use crate::text::{chars_of, dec, string_from_chars};

verus! {

/// The display width that `unicode_width::UnicodeWidthStr::width` gives a
/// string.
pub uninterp spec fn display_width(s: Seq<char>) -> usize;

/// Every character is printable ASCII (space through tilde).
pub open spec fn printable_ascii(s: Seq<char>) -> bool {
    forall|i: int| 0 <= i < s.len() ==> ' ' <= #[trigger] s[i] <= '~'
}

/// Display width of a string in terminal cells
/// (`unicode_width::UnicodeWidthStr::width`).  The width depends on the
/// characters alone; a string of printable ASCII characters is one cell per
/// character.  Nothing else is stated of the Unicode width tables.
#[verifier::external_body]
fn unicode_width(s: &str) -> (w: usize)
    ensures
        w == display_width(s@),
        printable_ascii(s@) ==> w == s@.len(),
{
    unicode_width::UnicodeWidthStr::width(s)
}

/// Where the ANSI scanner stands.
pub enum AnsiState {
    /// Ordinary text.
    Text,
    /// Just after an ESC.
    Escape,
    /// Inside a CSI sequence (`ESC [`), before its final byte.
    Csi,
    /// Inside an OSC sequence (`ESC ]`), before its terminator.
    Osc,
    /// Just after an ESC inside an OSC sequence.
    OscEscape,
}

/// A CSI sequence ends with a byte in `0x40..=0x7E`.
pub open spec fn is_csi_final(c: char) -> bool {
    '\x40' <= c <= '\x7e'
}

/// The visible characters of `s` when scanning starts in `state`: CSI
/// sequences run to their final byte, OSC sequences to BEL or to an ESC and
/// the character after it, and any other ESC swallows one character.
pub open spec fn strip_from(s: Seq<char>, state: AnsiState) -> Seq<char>
    decreases s.len(),
{
    if s.len() == 0 {
        Seq::empty()
    } else {
        let c = s[0];
        let rest = s.skip(1);
        match state {
            AnsiState::Text => if c == '\x1b' {
                strip_from(rest, AnsiState::Escape)
            } else {
                seq![c] + strip_from(rest, AnsiState::Text)
            },
            AnsiState::Escape => if c == '[' {
                strip_from(rest, AnsiState::Csi)
            } else if c == ']' {
                strip_from(rest, AnsiState::Osc)
            } else {
                strip_from(rest, AnsiState::Text)
            },
            AnsiState::Csi => if is_csi_final(c) {
                strip_from(rest, AnsiState::Text)
            } else {
                strip_from(rest, AnsiState::Csi)
            },
            AnsiState::Osc => if c == '\x07' {
                strip_from(rest, AnsiState::Text)
            } else if c == '\x1b' {
                strip_from(rest, AnsiState::OscEscape)
            } else {
                strip_from(rest, AnsiState::Osc)
            },
            AnsiState::OscEscape => strip_from(rest, AnsiState::Text),
        }
    }
}

/// The visible characters of `s`: `s` without its escape sequences.
pub open spec fn strip_ansi(s: Seq<char>) -> Seq<char> {
    strip_from(s, AnsiState::Text)
}

/// The terminal width of a text once its escape sequences are removed.
pub open spec fn visible_width_of(s: Seq<char>) -> usize {
    display_width(strip_ansi(s))
}

/// The characters of `text` that are not part of an escape sequence.
pub fn strip_escapes(text: &str) -> (r: String)
    ensures
        r@ == strip_ansi(text@),
{
    let v = chars_of(text);
    let n = v.len();
    let mut out: Vec<char> = Vec::new();
    let mut state = AnsiState::Text;
    assert(v@.skip(0) == v@);
    for i in 0..n
        invariant
            n == v@.len(),
            v@ == text@,
            strip_ansi(v@) == out@ + strip_from(v@.skip(i as int), state),
    {
        let c = v[i];
        let ghost t = v@.skip(i as int);
        assert(t[0] == c);
        assert(t.skip(1) == v@.skip(i + 1));
        let ghost before = out@;
        state = match state {
            AnsiState::Text => if c == '\x1b' {
                AnsiState::Escape
            } else {
                out.push(c);
                AnsiState::Text
            },
            AnsiState::Escape => if c == '[' {
                AnsiState::Csi
            } else if c == ']' {
                AnsiState::Osc
            } else {
                AnsiState::Text
            },
            AnsiState::Csi => if '\x40' <= c && c <= '\x7e' {
                AnsiState::Text
            } else {
                AnsiState::Csi
            },
            AnsiState::Osc => if c == '\x07' {
                AnsiState::Text
            } else if c == '\x1b' {
                AnsiState::OscEscape
            } else {
                AnsiState::Osc
            },
            AnsiState::OscEscape => AnsiState::Text,
        };
        assert(before + (seq![c] + strip_from(v@.skip(i + 1), AnsiState::Text)) == before.push(c)
            + strip_from(v@.skip(i + 1), AnsiState::Text));
    }
    assert(v@.skip(n as int) == Seq::<char>::empty());
    assert(out@ + Seq::<char>::empty() == out@);
    string_from_chars(&out)
}

/// Terminal display width of `text` once escape sequences (colours,
/// hyperlinks, window titles) are removed.
pub fn visible_width(text: &str) -> (w: usize)
    ensures
        w == visible_width_of(text@),
        printable_ascii(strip_ansi(text@)) ==> w == strip_ansi(text@).len(),
{
    let visible = strip_escapes(text);
    unicode_width(visible.as_str())
}

/// The text holds no ESC character.
pub open spec fn no_escape(t: Seq<char>) -> bool {
    forall|i: int| 0 <= i < t.len() ==> #[trigger] t[i] != '\x1b'
}

/// Every character is a digit or a semicolon (SGR parameter bytes).
pub open spec fn param_chars(p: Seq<char>) -> bool {
    forall|i: int| 0 <= i < p.len() ==> ('0' <= #[trigger] p[i] <= '9' || p[i] == ';')
}

proof fn lemma_plain_prefix(t: Seq<char>, rest: Seq<char>)
    requires
        no_escape(t),
    ensures
        strip_from(t + rest, AnsiState::Text) == t + strip_from(rest, AnsiState::Text),
    decreases t.len(),
{
    if t.len() == 0 {
        assert(t + rest == rest);
    } else {
        let u = t + rest;
        assert(u[0] == t[0]);
        assert(u.skip(1) == t.skip(1) + rest);
        lemma_plain_prefix(t.skip(1), rest);
        assert(t == seq![t[0]] + t.skip(1));
    }
}

proof fn lemma_params_in_csi(p: Seq<char>, rest: Seq<char>)
    requires
        param_chars(p),
    ensures
        strip_from(p + rest, AnsiState::Csi) == strip_from(rest, AnsiState::Csi),
    decreases p.len(),
{
    if p.len() == 0 {
        assert(p + rest == rest);
    } else {
        let u = p + rest;
        assert(u[0] == p[0]);
        assert(u.skip(1) == p.skip(1) + rest);
        lemma_params_in_csi(p.skip(1), rest);
    }
}

proof fn lemma_dec_digits(n: nat)
    ensures
        param_chars(dec(n)),
    decreases n,
{
    if n >= 10 {
        lemma_dec_digits(n / 10);
    }
}

proof fn lemma_param_concat(a: Seq<char>, b: Seq<char>)
    requires
        param_chars(a),
        param_chars(b),
    ensures
        param_chars(a + b),
{
    assert forall|i: int| 0 <= i < (a + b).len() implies ('0' <= #[trigger] (a + b)[i] <= '9' || (a
        + b)[i] == ';') by {
        if i < a.len() {
            assert((a + b)[i] == a[i]);
        } else {
            assert((a + b)[i] == b[i - a.len()]);
        }
    }
}

proof fn lemma_fg_params_chars(c: AnsiColor)
    ensures
        param_chars(fg_params(c)),
{
    reveal_strlit("38;5;");
    reveal_strlit("38;2;");
    reveal_strlit(";");
    match c {
        AnsiColor::Color16 { c16 } => lemma_dec_digits(fg16(c16)),
        AnsiColor::Color256 { c256 } => {
            lemma_dec_digits(c256 as nat);
            lemma_param_concat("38;5;"@, dec(c256 as nat));
        },
        AnsiColor::Rgb { r, g, b } => {
            lemma_dec_digits(r as nat);
            lemma_dec_digits(g as nat);
            lemma_dec_digits(b as nat);
            lemma_param_concat("38;2;"@, dec(r as nat));
            lemma_param_concat("38;2;"@ + dec(r as nat), ";"@);
            lemma_param_concat("38;2;"@ + dec(r as nat) + ";"@, dec(g as nat));
            lemma_param_concat("38;2;"@ + dec(r as nat) + ";"@ + dec(g as nat), ";"@);
            lemma_param_concat("38;2;"@ + dec(r as nat) + ";"@ + dec(g as nat) + ";"@, dec(b as nat));
        },
    }
}

proof fn lemma_sgr_hidden(p: Seq<char>, rest: Seq<char>)
    requires
        param_chars(p),
    ensures
        strip_ansi(sgr(p) + rest) == strip_ansi(rest),
{
    reveal_strlit("\x1b[");
    reveal_strlit("m");
    let u = sgr(p) + rest;
    let tail = p + ("m"@ + rest);
    assert(u =~= seq!['\x1b', '['] + tail);
    assert(u[0] == '\x1b');
    assert(u.skip(1) =~= seq!['['] + tail);
    assert(u.skip(1)[0] == '[');
    assert(u.skip(1).skip(1) =~= tail);
    lemma_params_in_csi(p, "m"@ + rest);
    let m = "m"@ + rest;
    assert(m[0] == 'm');
    assert(m.skip(1) =~= rest);
    assert(strip_from(u, AnsiState::Text) == strip_from(u.skip(1), AnsiState::Escape));
    assert(strip_from(u.skip(1), AnsiState::Escape) == strip_from(tail, AnsiState::Csi));
    assert(is_csi_final('m'));
    assert(strip_from(m, AnsiState::Csi) == strip_from(rest, AnsiState::Text));
}

/// Without escape characters in `text`, colouring or styling it adds no
/// visible character: its visible width is the width of `text`.
pub proof fn lemma_styling_is_invisible(text: Seq<char>, color: Option<AnsiColor>, bold: bool)
    requires
        no_escape(text),
    ensures
        strip_ansi(colored(text, color)) == text,
        strip_ansi(styled(text, color, bold)) == text,
        visible_width_of(styled(text, color, bold)) == display_width(text),
{
    reveal_strlit("\x1b[0m");
    reveal_strlit("1;");
    reveal_strlit("1");
    reveal_strlit("0");
    assert(param_chars("0"@));
    lemma_sgr_hidden("0"@, Seq::empty());
    assert(sgr("0"@) + Seq::<char>::empty() =~= reset()) by {
        reveal_strlit("\x1b[");
        reveal_strlit("m");
    }
    assert(strip_ansi(Seq::<char>::empty()) == Seq::<char>::empty());
    assert(strip_ansi(reset()) == Seq::<char>::empty());
    lemma_plain_prefix(text, reset());
    lemma_plain_prefix(text, Seq::empty());
    assert(text + Seq::<char>::empty() == text);
    if let Some(c) = color {
        lemma_fg_params_chars(c);
        lemma_sgr_hidden(fg_params(c), text + reset());
        assert(colored(text, color) == sgr(fg_params(c)) + (text + reset()));
    }
    if bold || color is Some {
        let p = style_params(color, bold);
        assert(param_chars(p)) by {
            match color {
                Some(c) => {
                    lemma_fg_params_chars(c);
                    if bold {
                        assert(param_chars("1;"@));
                        lemma_param_concat("1;"@, fg_params(c));
                    }
                },
                None => {
                    assert(param_chars("1"@));
                },
            }
        }
        lemma_sgr_hidden(p, text + reset());
        assert(styled(text, color, bold) == sgr(p) + (text + reset()));
    } else {
        lemma_plain_prefix(text, Seq::empty());
    }
}

} // verus!
