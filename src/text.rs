use vstd::prelude::*;
use crossterm::style::{Attribute, Color, ResetColor, SetAttribute, SetForegroundColor};
use crossterm::Command;
use vstd::string::StringExecFns;

verus! {

pub open spec fn digit_char(d: nat) -> char {
    if d == 0 { '0' }
    else if d == 1 { '1' }
    else if d == 2 { '2' }
    else if d == 3 { '3' }
    else if d == 4 { '4' }
    else if d == 5 { '5' }
    else if d == 6 { '6' }
    else if d == 7 { '7' }
    else if d == 8 { '8' }
    else { '9' }
}

/// The decimal digits of `n`, most significant first, with no sign or leading zeros.
pub open spec fn decimal(n: nat) -> Seq<char>
    decreases n,
{
    if n < 10 {
        seq![digit_char(n)]
    } else {
        decimal(n / 10).push(digit_char(n % 10))
    }
}

/// `n` spaces.
pub open spec fn blanks(n: nat) -> Seq<char> {
    Seq::new(n, |i: int| ' ')
}

/// The colours the listing uses; `Default` is the terminal's own foreground.
#[derive(Clone, Copy, Debug, PartialEq, Eq, Structural)]
pub enum Colour {
    Blue,
    Green,
    Cyan,
    Yellow,
    Red,
    Default,
}

/// The escape sequence that sets the foreground colour, as crossterm writes it.
pub open spec fn fg_escape(c: Colour) -> Seq<char> {
    match c {
        Colour::Blue => "\x1b[38;5;12m"@,
        Colour::Green => "\x1b[38;5;10m"@,
        Colour::Cyan => "\x1b[38;5;14m"@,
        Colour::Yellow => "\x1b[38;5;11m"@,
        Colour::Red => "\x1b[38;5;9m"@,
        Colour::Default => "\x1b[39m"@,
    }
}

/// The escape sequence that turns bold on.
pub open spec fn bold_escape() -> Seq<char> {
    "\x1b[1m"@
}

/// The escape sequence that turns italics on.
pub open spec fn italic_escape() -> Seq<char> {
    "\x1b[3m"@
}

/// The escape sequence that resets all colours and attributes.
pub open spec fn reset_escape() -> Seq<char> {
    "\x1b[0m"@
}

/// `s` in colour `c`, then back to the default foreground.
pub open spec fn coloured(c: Colour, s: Seq<char>) -> Seq<char> {
    fg_escape(c) + s + fg_escape(Colour::Default)
}

pub open spec fn styled_blue(s: Seq<char>) -> Seq<char> {
    coloured(Colour::Blue, s)
}

pub open spec fn styled_green(s: Seq<char>) -> Seq<char> {
    coloured(Colour::Green, s)
}

pub open spec fn styled_cyan(s: Seq<char>) -> Seq<char> {
    coloured(Colour::Cyan, s)
}

pub open spec fn styled_yellow(s: Seq<char>) -> Seq<char> {
    coloured(Colour::Yellow, s)
}

pub open spec fn styled_red(s: Seq<char>) -> Seq<char> {
    coloured(Colour::Red, s)
}

/// `s` in bold, then every attribute and colour reset.
pub open spec fn styled_bold(s: Seq<char>) -> Seq<char> {
    bold_escape() + s + reset_escape()
}

/// Relies on crossterm's `SetForegroundColor(..).write_ansi`: `ESC[38;5;<n>m` for the
/// colour numbers 12, 10, 14, 11 and 9, and `ESC[39m` for `Color::Reset`.
#[verifier::external_body]
fn set_foreground(c: Colour) -> (r: String)
    ensures
        r@ == fg_escape(c),
{
    let colour = match c {
        Colour::Blue => Color::Blue,
        Colour::Green => Color::Green,
        Colour::Cyan => Color::Cyan,
        Colour::Yellow => Color::Yellow,
        Colour::Red => Color::Red,
        Colour::Default => Color::Reset,
    };
    let mut r = String::new();
    let _ = SetForegroundColor(colour).write_ansi(&mut r);
    r
}

/// Relies on crossterm's `SetAttribute(Attribute::Bold).write_ansi`: `ESC[1m`.
#[verifier::external_body]
fn set_bold() -> (r: String)
    ensures
        r@ == bold_escape(),
{
    let mut r = String::new();
    let _ = SetAttribute(Attribute::Bold).write_ansi(&mut r);
    r
}

/// Relies on crossterm's `SetAttribute(Attribute::Italic).write_ansi`: `ESC[3m`.
#[verifier::external_body]
fn set_italic() -> (r: String)
    ensures
        r@ == italic_escape(),
{
    let mut r = String::new();
    let _ = SetAttribute(Attribute::Italic).write_ansi(&mut r);
    r
}

/// Relies on crossterm's `ResetColor.write_ansi`: `ESC[0m`.
#[verifier::external_body]
fn reset_style() -> (r: String)
    ensures
        r@ == reset_escape(),
{
    let mut r = String::new();
    let _ = ResetColor.write_ansi(&mut r);
    r
}

fn in_colour(c: Colour, msg: &str) -> (r: String)
    ensures
        r@ == coloured(c, msg@),
{
    let mut r = set_foreground(c);
    r.append(msg);
    let end = set_foreground(Colour::Default);
    r.append(end.as_str());
    r
}

/// `msg` in blue.
pub fn primary(msg: &str) -> (r: String)
    ensures
        r@ == styled_blue(msg@),
{
    in_colour(Colour::Blue, msg)
}

/// `msg` in green.
pub fn success(msg: &str) -> (r: String)
    ensures
        r@ == styled_green(msg@),
{
    in_colour(Colour::Green, msg)
}

/// `msg` in cyan.
pub fn info(msg: &str) -> (r: String)
    ensures
        r@ == styled_cyan(msg@),
{
    in_colour(Colour::Cyan, msg)
}

/// `msg` in yellow.
pub fn warning(msg: &str) -> (r: String)
    ensures
        r@ == styled_yellow(msg@),
{
    in_colour(Colour::Yellow, msg)
}

/// `msg` in red.
pub fn danger(msg: &str) -> (r: String)
    ensures
        r@ == styled_red(msg@),
{
    in_colour(Colour::Red, msg)
}

/// `msg` in bold.
pub fn bold(msg: &str) -> (r: String)
    ensures
        r@ == styled_bold(msg@),
{
    let mut r = set_bold();
    r.append(msg);
    let end = reset_style();
    r.append(end.as_str());
    r
}

/// The one-character text of the digit `d`.
fn digit_text(d: usize) -> (r: String)
    requires
        d < 10,
    ensures
        r@ == seq![digit_char(d as nat)],
{
    proof {
        reveal_strlit("0");
        reveal_strlit("1");
        reveal_strlit("2");
        reveal_strlit("3");
        reveal_strlit("4");
        reveal_strlit("5");
        reveal_strlit("6");
        reveal_strlit("7");
        reveal_strlit("8");
        reveal_strlit("9");
    }
    let r = if d == 0 {
        String::from_str("0")
    } else if d == 1 {
        String::from_str("1")
    } else if d == 2 {
        String::from_str("2")
    } else if d == 3 {
        String::from_str("3")
    } else if d == 4 {
        String::from_str("4")
    } else if d == 5 {
        String::from_str("5")
    } else if d == 6 {
        String::from_str("6")
    } else if d == 7 {
        String::from_str("7")
    } else if d == 8 {
        String::from_str("8")
    } else {
        String::from_str("9")
    };
    assert(r@ =~= seq![digit_char(d as nat)]);
    r
}

/// The decimal digits of `n`.
pub(crate) fn usize_text(n: usize) -> (r: String)
    ensures
        r@ == decimal(n as nat),
{
    let mut m = n;
    let mut acc = String::new();
    assert(decimal(n as nat) =~= decimal(m as nat) + acc@);
    while m >= 10
        invariant
            decimal(n as nat) == decimal(m as nat) + acc@,
        decreases m,
    {
        let mut d = digit_text(m % 10);
        d.append(acc.as_str());
        assert(decimal(m as nat) == decimal((m / 10) as nat).push(digit_char((m % 10) as nat)));
        assert(decimal(m as nat) + acc@ =~= decimal((m / 10) as nat) + d@);
        acc = d;
        m = m / 10;
    }
    let mut r = digit_text(m);
    r.append(acc.as_str());
    assert(r@ =~= decimal(n as nat));
    r
}

/// `msg` in italics.
pub fn italic(msg: &str) -> (r: String)
    ensures
        r@ == italic_escape() + msg@ + reset_escape(),
{
    let mut r = set_italic();
    r.append(msg);
    let end = reset_style();
    r.append(end.as_str());
    r
}

/// Appends `n` spaces to `out`.
pub fn push_blanks(out: &mut String, n: usize)
    ensures
        final(out)@ == old(out)@ + blanks(n as nat),
{
    let ghost start = out@;
    let mut i: usize = 0;
    while i < n
        invariant
            i <= n,
            out@ == start + blanks(i as nat),
        decreases n - i,
    {
        out.append(" ");
        proof {
            reveal_strlit(" ");
            assert(start + blanks((i + 1) as nat) =~= start + blanks(i as nat) + " "@);
        }
        i = i + 1;
    }
}

} // verus!
