//! Colorized terminal output through ANSI escape sequences.
use vstd::prelude::*;
use vstd::string::StringExecFns;

verus! {

/// The four foreground colors the renderer knows.
#[derive(PartialEq, Eq, Structural, Clone, Copy, Debug)]
pub enum Color {
    Red,
    Blue,
    Green,
    Yellow,
}

/// The escape sequence that ends any styling.
pub open spec fn reset_code() -> Seq<char> {
    seq!['\x1b', '[', '0', 'm']
}

/// The escape sequence that sets the foreground color `c`.
pub open spec fn color_code(c: Color) -> Seq<char> {
    match c {
        Color::Red => seq!['\x1b', '[', '3', '1', 'm'],
        Color::Green => seq!['\x1b', '[', '3', '2', 'm'],
        Color::Yellow => seq!['\x1b', '[', '3', '3', 'm'],
        Color::Blue => seq!['\x1b', '[', '3', '4', 'm'],
    }
}

/// `s` framed by `open` in front and the reset sequence behind.
pub open spec fn framed(open: Seq<char>, s: Seq<char>) -> Seq<char> {
    open + s + reset_code()
}

/// `s` painted in color `c`.
pub open spec fn painted(c: Color, s: Seq<char>) -> Seq<char> {
    framed(color_code(c), s)
}

fn frame(open: &str, s: &str) -> (r: String)
    ensures
        r@ == open@ + s@ + "\x1b[0m"@,
{
    let mut r = String::from_str(open);
    r.append(s);
    r.append("\x1b[0m");
    r
}

/// Returns `s` in red.
pub fn red(s: &str) -> (r: String)
    ensures
        r@ == painted(Color::Red, s@),
{
    proof {
        reveal_strlit("\x1b[31m");
        reveal_strlit("\x1b[0m");
    }
    frame("\x1b[31m", s)
}

/// Returns `s` in green.
pub fn green(s: &str) -> (r: String)
    ensures
        r@ == painted(Color::Green, s@),
{
    proof {
        reveal_strlit("\x1b[32m");
        reveal_strlit("\x1b[0m");
    }
    frame("\x1b[32m", s)
}

/// Returns `s` in yellow.
pub fn yellow(s: &str) -> (r: String)
    ensures
        r@ == painted(Color::Yellow, s@),
{
    proof {
        reveal_strlit("\x1b[33m");
        reveal_strlit("\x1b[0m");
    }
    frame("\x1b[33m", s)
}

/// Returns `s` in blue.
pub fn blue(s: &str) -> (r: String)
    ensures
        r@ == painted(Color::Blue, s@),
{
    proof {
        reveal_strlit("\x1b[34m");
        reveal_strlit("\x1b[0m");
    }
    frame("\x1b[34m", s)
}

/// Returns `s` between two reset sequences, which clears any styling
/// in effect before it.
pub fn reset(s: &str) -> (r: String)
    ensures
        r@ == framed(reset_code(), s@),
{
    proof {
        reveal_strlit("\x1b[0m");
    }
    frame("\x1b[0m", s)
}

/// Returns `s` painted in color `c`.
pub fn paint_str(c: Color, s: &str) -> (r: String)
    ensures
        r@ == painted(c, s@),
{
    match c {
        Color::Blue => blue(s),
        Color::Green => green(s),
        Color::Red => red(s),
        Color::Yellow => yellow(s),
    }
}

/// A piece of text, the color to paint it in, and the rendered result.
pub struct ColorString {
    pub color: Color,
    pub string: String,
    pub colorised: String,
}

impl ColorString {
    /// Renders `string` in `color` into `colorised`.
    pub fn paint(&mut self)
        ensures
            final(self).color == old(self).color,
            final(self).string@ == old(self).string@,
            final(self).colorised@ == painted(old(self).color, old(self).string@),
    {
        self.colorised = paint_str(self.color, self.string.as_str());
    }

    /// Renders `string` between two reset sequences into `colorised`.
    pub fn reset(&mut self)
        ensures
            final(self).color == old(self).color,
            final(self).string@ == old(self).string@,
            final(self).colorised@ == framed(reset_code(), old(self).string@),
    {
        self.colorised = reset(self.string.as_str());
    }
}

/// Painting with any of the four colors yields a text that opens with that
/// color's own escape sequence, which differs from the other three, and
/// closes with the reset sequence. Painting such a result again in the
/// same color wraps it whole: the first rendering stands unchanged inside,
/// and the outcome again closes with the reset sequence.
pub proof fn lemma_paint_frames(c: Color, s: Seq<char>)
    ensures
        painted(c, s).subrange(0, color_code(c).len() as int) == color_code(c),
        painted(c, s).subrange(
            painted(c, s).len() - reset_code().len(),
            painted(c, s).len() as int,
        ) == reset_code(),
        forall|o: Color| o != c ==> color_code(o) != color_code(c),
        painted(c, painted(c, s)) == color_code(c) + painted(c, s) + reset_code(),
        painted(c, painted(c, s)).subrange(
            painted(c, painted(c, s)).len() - reset_code().len(),
            painted(c, painted(c, s)).len() as int,
        ) == reset_code(),
{
    let p = painted(c, s);
    assert(p.subrange(0, color_code(c).len() as int) =~= color_code(c));
    assert(p.subrange(p.len() - reset_code().len(), p.len() as int) =~= reset_code());
    let q = painted(c, p);
    assert(q.subrange(q.len() - reset_code().len(), q.len() as int) =~= reset_code());
    assert forall|o: Color| o != c implies color_code(o) != color_code(c) by {
        assert(color_code(o)[3] != color_code(c)[3]);
    }
}

} // verus!
