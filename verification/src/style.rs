use vstd::prelude::*;

use crate::config::AnsiColor;
use crate::text::{chars_of, dec, push_char, push_decimal, push_str};

verus! {

/// The SGR code of a basic foreground colour (`30..=37`, then `90..`).
pub open spec fn fg16(c: u8) -> nat {
    if c < 8 { (30 + c) as nat } else { (90 + (c - 8)) as nat }
}

/// The SGR code of a basic background colour (`40..=47`, then `100..`).
pub open spec fn bg16(c: u8) -> nat {
    if c < 8 { (40 + c) as nat } else { (100 + (c - 8)) as nat }
}

/// The colour's foreground code stays within a byte.
pub open spec fn fg_ok(c: AnsiColor) -> bool {
    c matches AnsiColor::Color16 { c16 } ==> c16 <= 173
}

/// The colour's background code stays within a byte.
pub open spec fn bg_ok(c: AnsiColor) -> bool {
    c matches AnsiColor::Color16 { c16 } ==> c16 <= 163
}

/// An optional colour whose foreground code stays within a byte.
pub open spec fn fg_ok_opt(c: Option<AnsiColor>) -> bool {
    c matches Some(x) ==> fg_ok(x)
}

/// SGR parameters that select `c` as foreground colour.
pub open spec fn fg_params(c: AnsiColor) -> Seq<char> {
    match c {
        AnsiColor::Color16 { c16 } => dec(fg16(c16)),
        AnsiColor::Color256 { c256 } => "38;5;"@ + dec(c256 as nat),
        AnsiColor::Rgb { r, g, b } => "38;2;"@ + dec(r as nat) + ";"@ + dec(g as nat) + ";"@ + dec(
            b as nat,
        ),
    }
}

/// SGR parameters that select `c` as background colour.
pub open spec fn bg_params(c: AnsiColor) -> Seq<char> {
    match c {
        AnsiColor::Color16 { c16 } => dec(bg16(c16)),
        AnsiColor::Color256 { c256 } => "48;5;"@ + dec(c256 as nat),
        AnsiColor::Rgb { r, g, b } => "48;2;"@ + dec(r as nat) + ";"@ + dec(g as nat) + ";"@ + dec(
            b as nat,
        ),
    }
}

/// An SGR escape sequence with the given parameters.
pub open spec fn sgr(params: Seq<char>) -> Seq<char> {
    "\x1b["@ + params + "m"@
}

/// The escape sequence that resets all attributes.
pub open spec fn reset() -> Seq<char> {
    "\x1b[0m"@
}

/// `text` in colour `color`, followed by a reset; `text` itself without a
/// colour.
pub open spec fn colored(text: Seq<char>, color: Option<AnsiColor>) -> Seq<char> {
    match color {
        Some(c) => sgr(fg_params(c)) + text + reset(),
        None => text,
    }
}

/// The SGR parameters for optional bold and an optional colour.
pub open spec fn style_params(color: Option<AnsiColor>, bold: bool) -> Seq<char> {
    match (bold, color) {
        (true, Some(c)) => "1;"@ + fg_params(c),
        (true, None) => "1"@,
        (false, Some(c)) => fg_params(c),
        (false, None) => Seq::empty(),
    }
}

/// `text` with optional bold and colour, followed by a reset when any is
/// applied.
pub open spec fn styled(text: Seq<char>, color: Option<AnsiColor>, bold: bool) -> Seq<char> {
    if !bold && color is None {
        text
    } else {
        sgr(style_params(color, bold)) + text + reset()
    }
}

/// The escape sequence that selects `c` as background colour.
pub open spec fn bg_code(c: AnsiColor) -> Seq<char> {
    sgr(bg_params(c))
}

/// The escape sequence that selects `c` as foreground colour.
pub open spec fn fg_code(c: AnsiColor) -> Seq<char> {
    sgr(fg_params(c))
}

/// Appends the foreground parameters of `c`.
pub fn push_fg_params(s: &mut String, c: &AnsiColor)
    requires
        fg_ok(*c),
    ensures
        final(s)@ == old(s)@ + fg_params(*c),
{
    match c {
        AnsiColor::Color16 { c16 } => {
            let code: u8 = if *c16 < 8 { 30 + *c16 } else { 90 + (*c16 - 8) };
            push_decimal(s, code as u64);
        },
        AnsiColor::Color256 { c256 } => {
            push_str(s, "38;5;");
            push_decimal(s, *c256 as u64);
            assert(final(s)@ == old(s)@ + ("38;5;"@ + dec(*c256 as nat)));
        },
        AnsiColor::Rgb { r, g, b } => {
            push_str(s, "38;2;");
            push_decimal(s, *r as u64);
            push_str(s, ";");
            push_decimal(s, *g as u64);
            push_str(s, ";");
            push_decimal(s, *b as u64);
            assert(final(s)@ == old(s)@ + ("38;2;"@ + dec(*r as nat) + ";"@ + dec(*g as nat) + ";"@
                + dec(*b as nat)));
        },
    }
}

/// Appends the background parameters of `c`.
pub fn push_bg_params(s: &mut String, c: &AnsiColor)
    requires
        bg_ok(*c),
    ensures
        final(s)@ == old(s)@ + bg_params(*c),
{
    match c {
        AnsiColor::Color16 { c16 } => {
            let code: u8 = if *c16 < 8 { 40 + *c16 } else { 100 + (*c16 - 8) };
            push_decimal(s, code as u64);
        },
        AnsiColor::Color256 { c256 } => {
            push_str(s, "48;5;");
            push_decimal(s, *c256 as u64);
            assert(final(s)@ == old(s)@ + ("48;5;"@ + dec(*c256 as nat)));
        },
        AnsiColor::Rgb { r, g, b } => {
            push_str(s, "48;2;");
            push_decimal(s, *r as u64);
            push_str(s, ";");
            push_decimal(s, *g as u64);
            push_str(s, ";");
            push_decimal(s, *b as u64);
            assert(final(s)@ == old(s)@ + ("48;2;"@ + dec(*r as nat) + ";"@ + dec(*g as nat) + ";"@
                + dec(*b as nat)));
        },
    }
}

/// The reset sequence, character by character.
pub open spec fn reset_chars() -> Seq<char> {
    seq!['\x1b', '[', '0', 'm']
}

/// `s` with every reset sequence removed (`s.replace("\x1b[0m", "")`).
pub open spec fn strip_resets(s: Seq<char>) -> Seq<char>
    decreases s.len(),
{
    if s.len() == 0 {
        s
    } else if s.len() >= 4 && s.take(4) == reset_chars() {
        strip_resets(s.skip(4))
    } else {
        seq![s[0]] + strip_resets(s.skip(1))
    }
}

/// Removes every reset sequence from `s`.
pub fn remove_resets(s: &str) -> (r: String)
    ensures
        r@ == strip_resets(s@),
{
    let v = chars_of(s);
    let n = v.len();
    let mut out = String::new();
    let mut i: usize = 0;
    assert(v@.skip(0) == v@);
    while i < n
        invariant
            n == v@.len(),
            i <= n,
            v@ == s@,
            strip_resets(v@) == out@ + strip_resets(v@.skip(i as int)),
        decreases n - i,
    {
        let ghost t = v@.skip(i as int);
        if n - i >= 4 && v[i] == '\x1b' && v[i + 1] == '[' && v[i + 2] == '0' && v[i + 3] == 'm' {
            assert(t.take(4) =~= reset_chars());
            assert(t.skip(4) =~= v@.skip(i + 4));
            i = i + 4;
        } else {
            assert(!(t.len() >= 4 && t.take(4) == reset_chars())) by {
                if t.len() >= 4 && t.take(4) == reset_chars() {
                    assert(t.take(4)[0] == v@[i as int]);
                    assert(t.take(4)[1] == v@[i + 1]);
                    assert(t.take(4)[2] == v@[i + 2]);
                    assert(t.take(4)[3] == v@[i + 3]);
                }
            }
            assert(t.skip(1) =~= v@.skip(i + 1));
            push_char(&mut out, v[i]);
            i = i + 1;
        }
    }
    assert(v@.skip(n as int) =~= Seq::<char>::empty());
    out
}

/// Colouring a text is styling it without bold.
pub proof fn lemma_colored_is_plain_style(text: Seq<char>, color: Option<AnsiColor>)
    ensures
        colored(text, color) == styled(text, color, false),
{
}

} // verus!
