//! Terminal colouring: a piece of text wrapped in an ANSI colour sequence,
//! or left bare when colouring is off.

use vstd::prelude::*;
use vstd::string::*;

verus! {

/// The foreground colours that the rendered output uses.
#[derive(Clone, Copy, Debug, PartialEq, Eq, Structural)]
pub enum Hue {
    BrightBlack,
    BrightGreen,
    BrightBlue,
}

/// The SGR parameter that selects a hue as foreground colour.
pub open spec fn hue_code(h: Hue) -> Seq<char> {
    match h {
        Hue::BrightBlack => seq!['9', '0'],
        Hue::BrightGreen => seq!['9', '2'],
        Hue::BrightBlue => seq!['9', '4'],
    }
}

/// The sequence that ends any colouring.
pub open spec fn reset_seq() -> Seq<char> {
    seq!['\u{1b}', '[', '0', 'm']
}

/// The sequence that starts colouring in hue `h`.
pub open spec fn open_seq(h: Hue) -> Seq<char> {
    seq!['\u{1b}', '['] + hue_code(h) + seq!['m']
}

/// `s` with `style` put back after each reset sequence in it, so that a
/// reset inside the text does not end the colouring early.
pub open spec fn restyled(s: Seq<char>, style: Seq<char>) -> Seq<char>
    decreases s.len(),
{
    if s.len() >= 4 && s.take(4) == reset_seq() {
        reset_seq() + style + restyled(s.skip(4), style)
    } else if s.len() == 0 {
        Seq::empty()
    } else {
        seq![s[0]] + restyled(s.drop_first(), style)
    }
}

/// `s` as it shows in hue `h` when `on`, and bare otherwise.
pub open spec fn painted(s: Seq<char>, h: Hue, on: bool) -> Seq<char> {
    if on {
        open_seq(h) + restyled(s, open_seq(h)) + reset_seq()
    } else {
        s
    }
}

/// Relies on colored::Color::to_fg_str: the SGR foreground parameter of a
/// basic colour.
#[verifier::external_body]
fn fg_code(h: Hue) -> (r: String)
    ensures
        r@ == hue_code(h),
{
    let c = match h {
        Hue::BrightBlack => colored::Color::BrightBlack,
        Hue::BrightGreen => colored::Color::BrightGreen,
        Hue::BrightBlue => colored::Color::BrightBlue,
    };
    c.to_fg_str().into_owned()
}

/// `s` with `style` put back after each reset sequence in it.
fn restyle(s: &str, style: &str) -> (r: String)
    ensures
        r@ == restyled(s@, style@),
{
    let n = s.unicode_len();
    let reset = String::from_str("\u{1b}[0m");
    proof {
        reveal_strlit("\u{1b}[0m");
        assert(s@.skip(0) =~= s@);
    }
    let mut r = String::new();
    let mut i: usize = 0;
    while i < n
        invariant
            i <= n,
            n == s@.len(),
            reset@ == reset_seq(),
            restyled(s@, style@) == r@ + restyled(s@.skip(i as int), style@),
        decreases n - i,
    {
        let ghost rest = s@.skip(i as int);
        let ghost before = r@;
        if n - i >= 4 && s.substring_char(i, i + 4).to_owned() == reset {
            proof {
                assert(rest.take(4) =~= s@.subrange(i as int, i + 4));
                assert(rest.skip(4) =~= s@.skip(i + 4));
            }
            r.append(reset.as_str());
            r.append(style);
            i = i + 4;
            proof {
                assert(before + restyled(rest, style@) =~= r@ + restyled(s@.skip(i as int), style@));
            }
        } else {
            proof {
                if rest.len() >= 4 {
                    assert(rest.take(4) =~= s@.subrange(i as int, i + 4));
                }
                assert(rest.drop_first() =~= s@.skip(i + 1));
            }
            let one = s.substring_char(i, i + 1);
            r.append(one);
            i = i + 1;
            proof {
                assert(one@ =~= seq![rest[0]]);
                assert(before + restyled(rest, style@) =~= r@ + restyled(s@.skip(i as int), style@));
            }
        }
    }
    proof {
        assert(restyled(s@.skip(i as int), style@) =~= Seq::<char>::empty());
        assert(r@ + Seq::<char>::empty() =~= r@);
    }
    r
}

/// Wraps `s` in the colour sequence of `h` when `on`, putting the colour
/// back after any reset inside it; copies `s` otherwise.
pub fn paint(s: &str, h: Hue, on: bool) -> (r: String)
    ensures
        r@ == painted(s@, h, on),
{
    if on {
        let mut open = String::from_str("\u{1b}[");
        let code = fg_code(h);
        open.append(code.as_str());
        open.append("m");
        proof {
            reveal_strlit("\u{1b}[");
            reveal_strlit("m");
            reveal_strlit("\u{1b}[0m");
            assert(open@ =~= open_seq(h));
        }
        let mut r = open.clone();
        let inner = restyle(s, open.as_str());
        r.append(inner.as_str());
        r.append("\u{1b}[0m");
        r
    } else {
        s.to_owned()
    }
}

} // verus!
