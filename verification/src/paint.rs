//! Terminal colors: text between the escape sequence of a foreground color
//! and the one that resets the foreground; and a text without its escape
//! sequences.

use owo_colors::colors::CustomColor;
use owo_colors::OwoColorize;
use vstd::prelude::*;

verus! {

/// The escape sequence that resets the foreground color.
pub open spec fn reset() -> Seq<char> {
    "\x1b[39m"@
}

/// A text in the foreground color with the given ANSI code.
pub open spec fn painted(code: Seq<char>, t: Seq<char>) -> Seq<char> {
    "\x1b["@ + code + "m"@ + t + reset()
}

/// The three decimal digits of a color component, zeros in front.
pub open spec fn three_digits(n: u8) -> Seq<char> {
    seq![
        (('0' as u8) + n / 100) as char,
        (('0' as u8) + (n / 10) % 10) as char,
        (('0' as u8) + n % 10) as char,
    ]
}

/// The ANSI code of the foreground color with the given red, green and blue
/// components.
pub open spec fn rgb_code(r: u8, g: u8, b: u8) -> Seq<char> {
    "38;2;"@ + three_digits(r) + ";"@ + three_digits(g) + ";"@ + three_digits(b)
}

/// `OwoColorize::red` and `to_string`: the text behind the escape sequence
/// of color 31 and before the one that resets the foreground.
#[verifier::external_body]
pub(crate) fn red(s: &str) -> (r: String)
    ensures
        r@ == painted("31"@, s@),
{
    s.red().to_string()
}

/// `OwoColorize::green` and `to_string`: as `red`, with color 32.
#[verifier::external_body]
pub(crate) fn green(s: &str) -> (r: String)
    ensures
        r@ == painted("32"@, s@),
{
    s.green().to_string()
}

/// `OwoColorize::yellow` and `to_string`: as `red`, with color 33.
#[verifier::external_body]
pub(crate) fn yellow(s: &str) -> (r: String)
    ensures
        r@ == painted("33"@, s@),
{
    s.yellow().to_string()
}

/// `OwoColorize::blue` and `to_string`: as `red`, with color 34.
#[verifier::external_body]
pub(crate) fn blue(s: &str) -> (r: String)
    ensures
        r@ == painted("34"@, s@),
{
    s.blue().to_string()
}

/// `OwoColorize::magenta` and `to_string`: as `red`, with color 35.
#[verifier::external_body]
pub(crate) fn magenta(s: &str) -> (r: String)
    ensures
        r@ == painted("35"@, s@),
{
    s.magenta().to_string()
}

/// `OwoColorize::fg` with a `CustomColor` and `to_string`: the text behind
/// the escape sequence `ESC[38;2;r;g;bm`, each component in three digits, and
/// before the one that resets the foreground.
#[verifier::external_body]
pub(crate) fn rgb<const R: u8, const G: u8, const B: u8>(s: &str) -> (r: String)
    ensures
        r@ == painted(rgb_code(R, G, B), s@),
{
    s.fg::<CustomColor<R, G, B>>().to_string()
}

// ---------------------------------------------------------------------------
// A text without its escape sequences
// ---------------------------------------------------------------------------

/// Whether the reader of a text is inside an escape sequence behind one more
/// character: an escape character opens a sequence and the next `m` closes
/// it.
pub open spec fn inside_behind(inside: bool, c: char) -> bool {
    if inside {
        c != 'm'
    } else {
        c == '\x1b'
    }
}

/// A text without its escape sequences, read from inside a sequence or from
/// outside.
pub open spec fn stripped(t: Seq<char>, inside: bool) -> Seq<char>
    decreases t.len(),
{
    if t.len() == 0 {
        Seq::empty()
    } else if inside || t[0] == '\x1b' {
        stripped(t.drop_first(), inside_behind(inside, t[0]))
    } else {
        seq![t[0]] + stripped(t.drop_first(), false)
    }
}

/// Whether the reader is inside an escape sequence at the end of a text.
pub open spec fn inside_after(t: Seq<char>, inside: bool) -> bool
    decreases t.len(),
{
    if t.len() == 0 {
        inside
    } else {
        inside_after(t.drop_first(), inside_behind(inside, t[0]))
    }
}

/// A text without its escape sequences: without every run of characters from
/// an escape character to the next `m`.
pub open spec fn plain(t: Seq<char>) -> Seq<char> {
    stripped(t, false)
}

/// Whether every escape sequence of a text ends in it.
pub open spec fn is_whole(t: Seq<char>) -> bool {
    !inside_after(t, false)
}

/// Whether a text holds no escape character.
pub open spec fn escape_free(t: Seq<char>) -> bool {
    forall|i: int| 0 <= i < t.len() ==> (#[trigger] t[i]) != '\x1b'
}

/// Whether a text holds no `m`.
pub open spec fn m_free(t: Seq<char>) -> bool {
    forall|i: int| 0 <= i < t.len() ==> (#[trigger] t[i]) != 'm'
}

/// A text in two parts is read part by part.
pub proof fn lemma_stripped_join(a: Seq<char>, b: Seq<char>, inside: bool)
    ensures
        stripped(a + b, inside) == stripped(a, inside) + stripped(b, inside_after(a, inside)),
        inside_after(a + b, inside) == inside_after(b, inside_after(a, inside)),
    decreases a.len(),
{
    if a.len() == 0 {
        assert(a + b =~= b);
        assert(stripped(a, inside) + stripped(b, inside) =~= stripped(b, inside));
    } else {
        let next = inside_behind(inside, a[0]);
        assert((a + b).drop_first() =~= a.drop_first() + b);
        assert((a + b)[0] == a[0]);
        lemma_stripped_join(a.drop_first(), b, next);
        if !(inside || a[0] == '\x1b') {
            assert(seq![a[0]] + (stripped(a.drop_first(), false) + stripped(
                b,
                inside_after(a.drop_first(), false),
            )) =~= (seq![a[0]] + stripped(a.drop_first(), false)) + stripped(
                b,
                inside_after(a.drop_first(), false),
            ));
        }
    }
}

/// A text without escape characters is its own plain text.
pub proof fn lemma_plain_of_free(t: Seq<char>)
    requires
        escape_free(t),
    ensures
        plain(t) == t,
        is_whole(t),
    decreases t.len(),
{
    if t.len() > 0 {
        let rest = t.drop_first();
        assert forall|i: int| 0 <= i < rest.len() implies (#[trigger] rest[i]) != '\x1b' by {
            assert(rest[i] == t[i + 1]);
        }
        lemma_plain_of_free(rest);
        assert(t[0] != '\x1b');
        assert(seq![t[0]] + rest =~= t);
    } else {
        assert(plain(t) =~= t);
    }
}

/// Inside an escape sequence a text without `m` is left out, and the
/// sequence goes on.
pub proof fn lemma_inside(code: Seq<char>)
    requires
        m_free(code),
    ensures
        stripped(code, true) == Seq::<char>::empty(),
        inside_after(code, true),
    decreases code.len(),
{
    if code.len() > 0 {
        let rest = code.drop_first();
        assert forall|i: int| 0 <= i < rest.len() implies (#[trigger] rest[i]) != 'm' by {
            assert(rest[i] == code[i + 1]);
        }
        assert(code[0] != 'm');
        lemma_inside(rest);
    }
}

/// The escape sequence of a code without `m` is left out as a whole.
pub proof fn lemma_escape(code: Seq<char>)
    requires
        m_free(code),
    ensures
        plain("\x1b["@ + code + "m"@) == Seq::<char>::empty(),
        is_whole("\x1b["@ + code + "m"@),
{
    reveal_strlit("\x1b[");
    reveal_strlit("m");
    let head = "\x1b["@;
    let tail = "m"@;
    assert(head =~= seq!['\x1b', '[']);
    assert(tail =~= seq!['m']);
    // the head opens the sequence
    assert(stripped(head, false) == Seq::<char>::empty() && inside_after(head, false)) by {
        let one = head.drop_first();
        assert(one =~= seq!['[']);
        assert(one.drop_first() =~= Seq::<char>::empty());
        assert(stripped(one, true) == stripped(one.drop_first(), true));
        assert(inside_after(one, true) == inside_after(one.drop_first(), true));
    }
    lemma_inside(code);
    // the `m` closes it
    assert(stripped(tail, true) == Seq::<char>::empty() && !inside_after(tail, true)) by {
        assert(tail.drop_first() =~= Seq::<char>::empty());
        assert(stripped(tail, true) == stripped(tail.drop_first(), false));
        assert(inside_after(tail, true) == inside_after(tail.drop_first(), false));
    }
    lemma_stripped_join(head, code, false);
    lemma_stripped_join(head + code, tail, false);
    assert(stripped(head, false) + stripped(code, true) =~= Seq::<char>::empty());
    assert(stripped(head + code, false) + stripped(tail, true) =~= Seq::<char>::empty());
}

/// The plain text of a painted text is the text.
pub proof fn lemma_plain_of_painted(code: Seq<char>, t: Seq<char>)
    requires
        m_free(code),
        escape_free(t),
    ensures
        plain(painted(code, t)) == t,
        is_whole(painted(code, t)),
{
    reveal_strlit("\x1b[39m");
    reveal_strlit("\x1b[");
    reveal_strlit("39");
    reveal_strlit("m");
    let open = "\x1b["@ + code + "m"@;
    let close = "\x1b["@ + "39"@ + "m"@;
    assert(reset() =~= close);
    assert(m_free("39"@));
    lemma_escape(code);
    lemma_escape("39"@);
    lemma_plain_of_free(t);
    lemma_stripped_join(open, t, false);
    lemma_stripped_join(open + t, close, false);
    assert(painted(code, t) =~= open + t + close);
    assert(Seq::<char>::empty() + t =~= t);
    assert(t + Seq::<char>::empty() =~= t);
}

/// The plain text of two texts in a row, the first of them whole, is the
/// plain text of the first and the plain text of the second.
pub proof fn lemma_plain_join(a: Seq<char>, b: Seq<char>)
    requires
        is_whole(a),
    ensures
        plain(a + b) == plain(a) + plain(b),
        is_whole(a + b) == is_whole(b),
{
    lemma_stripped_join(a, b, false);
}

/// The code of an RGB color holds no `m`.
pub proof fn lemma_rgb_code(r: u8, g: u8, b: u8)
    ensures
        m_free(rgb_code(r, g, b)),
{
    reveal_strlit("38;2;");
    reveal_strlit(";");
    let code = rgb_code(r, g, b);
    assert(code.len() == 16);
    assert forall|i: int| 0 <= i < code.len() implies (#[trigger] code[i]) != 'm' by {
        let x = three_digits(r);
        let y = three_digits(g);
        let z = three_digits(b);
        if i < 5 {
            assert(code[i] == "38;2;"@[i]);
        } else if i < 8 {
            assert(code[i] == x[i - 5]);
        } else if i < 9 {
            assert(code[i] == ';');
        } else if i < 12 {
            assert(code[i] == y[i - 9]);
        } else if i < 13 {
            assert(code[i] == ';');
        } else {
            assert(code[i] == z[i - 13]);
        }
    }
}

} // verus!
