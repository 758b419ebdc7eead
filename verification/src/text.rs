//! Text as sequences of characters: concatenation facts, comparison and
//! decimal numerals.

use vstd::prelude::*;
use vstd::string::StringExecFns;

verus! {

/// Concatenation of texts is associative.
pub broadcast proof fn lemma_concat_assoc(a: Seq<char>, b: Seq<char>, c: Seq<char>)
    ensures
        #[trigger] (a + (b + c)) == (a + b) + c,
{
    assert((a + (b + c)) =~= (a + b) + c);
}

/// The empty text is a left unit of concatenation.
pub broadcast proof fn lemma_concat_empty_left(a: Seq<char>)
    ensures
        #[trigger] (Seq::<char>::empty() + a) == a,
{
    assert((Seq::<char>::empty() + a) =~= a);
}

/// The empty text is a right unit of concatenation.
pub broadcast proof fn lemma_concat_empty_right(a: Seq<char>)
    ensures
        #[trigger] (a + Seq::<char>::empty()) == a,
{
    assert((a + Seq::<char>::empty()) =~= a);
}

pub broadcast group group_text {
    lemma_concat_assoc,
    lemma_concat_empty_left,
    lemma_concat_empty_right,
}

/// Appending the same suffix to two texts gives equal texts only if the two
/// texts are equal.
pub proof fn lemma_concat_cancel_right(a: Seq<char>, b: Seq<char>, s: Seq<char>)
    requires
        a + s == b + s,
    ensures
        a == b,
{
    assert((a + s).len() == a.len() + s.len());
    assert((b + s).len() == b.len() + s.len());
    assert forall|i: int| 0 <= i < a.len() implies a[i] == b[i] by {
        assert((a + s)[i] == a[i]);
        assert((b + s)[i] == b[i]);
    }
    assert(a =~= b);
}

/// Whether `text` ends with `suffix`.
pub open spec fn ends_with(text: Seq<char>, suffix: Seq<char>) -> bool {
    &&& suffix.len() <= text.len()
    &&& text.subrange(text.len() - suffix.len(), text.len() as int) == suffix
}

/// A text followed by another ends with the other.
pub proof fn lemma_ends_with_concat(a: Seq<char>, b: Seq<char>)
    ensures
        ends_with(a + b, b),
{
    assert((a + b).subrange((a + b).len() - b.len(), (a + b).len() as int) =~= b);
}

/// The view of an optional string.
pub open spec fn opt_text(s: Option<String>) -> Option<Seq<char>> {
    match s {
        Some(s) => Some(s@),
        None => None,
    }
}

/// The view of an optional reference to a string.
pub open spec fn opt_ref_text(s: Option<&String>) -> Option<Seq<char>> {
    match s {
        Some(s) => Some(s@),
        None => None,
    }
}

/// Whether two string slices hold the same characters, as `==` on `str`
/// decides it.
#[verifier::external_body]
pub(crate) fn same(a: &str, b: &str) -> (r: bool)
    ensures
        r == (a@ == b@),
{
    a == b
}

/// The order of texts: character by character, by code point, a proper
/// prefix before the longer text.
pub open spec fn text_less(a: Seq<char>, b: Seq<char>) -> bool
    decreases a.len(),
{
    if b.len() == 0 {
        false
    } else if a.len() == 0 {
        true
    } else if a[0] != b[0] {
        (a[0] as int) < (b[0] as int)
    } else {
        text_less(a.skip(1), b.skip(1))
    }
}

/// No text sorts before itself.
pub proof fn lemma_text_less_irreflexive(a: Seq<char>)
    ensures
        !text_less(a, a),
    decreases a.len(),
{
    if a.len() > 0 {
        lemma_text_less_irreflexive(a.skip(1));
    }
}

/// The order of texts is transitive.
pub proof fn lemma_text_less_transitive(a: Seq<char>, b: Seq<char>, c: Seq<char>)
    requires
        text_less(a, b),
        text_less(b, c),
    ensures
        text_less(a, c),
    decreases a.len(),
{
    if a.len() > 0 && a[0] == b[0] && b[0] == c[0] {
        lemma_text_less_transitive(a.skip(1), b.skip(1), c.skip(1));
    }
}

/// Of two different texts one sorts before the other.
pub proof fn lemma_text_less_total(a: Seq<char>, b: Seq<char>)
    requires
        a != b,
    ensures
        text_less(a, b) || text_less(b, a),
    decreases a.len(),
{
    if a.len() > 0 && b.len() > 0 && a[0] == b[0] {
        if a.skip(1) == b.skip(1) {
            assert(a =~= seq![a[0]] + a.skip(1));
            assert(b =~= seq![b[0]] + b.skip(1));
        }
        lemma_text_less_total(a.skip(1), b.skip(1));
    } else if a.len() == 0 && b.len() == 0 {
        assert(a =~= b);
    } else if a.len() > 0 && b.len() > 0 {
        let (c, d) = (a[0], b[0]);
        assert(c != d);
        assert(c as int != d as int);
    }
}

/// Whether `a` sorts strictly before `b`, as `<` on `str` decides it: std
/// orders string slices lexicographically by their bytes, which is the order
/// of their code points.
#[verifier::external_body]
pub(crate) fn less(a: &str, b: &str) -> (r: bool)
    ensures
        r == text_less(a@, b@),
{
    a < b
}

/// The character of a decimal digit.
pub open spec fn digit(d: nat) -> char {
    if d == 0 {
        '0'
    } else if d == 1 {
        '1'
    } else if d == 2 {
        '2'
    } else if d == 3 {
        '3'
    } else if d == 4 {
        '4'
    } else if d == 5 {
        '5'
    } else if d == 6 {
        '6'
    } else if d == 7 {
        '7'
    } else if d == 8 {
        '8'
    } else {
        '9'
    }
}

/// The decimal numeral of `n`, without leading zeros.
pub open spec fn decimal(n: nat) -> Seq<char>
    decreases n,
{
    if n < 10 {
        seq![digit(n)]
    } else {
        decimal(n / 10) + seq![digit(n % 10)]
    }
}

/// A decimal numeral has at least one digit, and more than one from ten
/// on.
pub proof fn lemma_decimal_len(n: nat)
    ensures
        decimal(n).len() >= 1,
        n >= 10 ==> decimal(n).len() >= 2,
    decreases n,
{
    if n >= 10 {
        lemma_decimal_len(n / 10);
    }
}

/// Different numbers have different decimal numerals.
pub proof fn lemma_decimal_injective(a: nat, b: nat)
    requires
        decimal(a) == decimal(b),
    ensures
        a == b,
    decreases a,
{
    lemma_decimal_len(a);
    lemma_decimal_len(b);
    if a < 10 || b < 10 {
        assert(decimal(a).len() == 1 || decimal(b).len() == 1);
        assert(a < 10 && b < 10);
        assert(decimal(a)[0] == digit(a));
        assert(decimal(b)[0] == digit(b));
    } else {
        let x = decimal(a / 10);
        let y = decimal(b / 10);
        assert(decimal(a) == x + seq![digit(a % 10)]);
        assert(decimal(b) == y + seq![digit(b % 10)]);
        assert(x.len() == y.len());
        assert(decimal(a)[x.len() as int] == digit(a % 10));
        assert(decimal(b)[y.len() as int] == digit(b % 10));
        assert(a % 10 == b % 10);
        assert(x =~= y) by {
            assert forall|i: int| 0 <= i < x.len() implies x[i] == y[i] by {
                assert(decimal(a)[i] == x[i]);
                assert(decimal(b)[i] == y[i]);
            }
        }
        lemma_decimal_injective(a / 10, b / 10);
    }
}

fn digit_str(d: usize) -> (r: &'static str)
    requires
        d < 10,
    ensures
        r@ == seq![digit(d as nat)],
{
    proof {
        reveal_strlit("0");
        reveal_strlit("1");
        reveal_strlit("2");
        reveal_strlit("3");
        reveal_strlit("4");
        reveal_strlit("5");
        reveal_strlit("6");
        reveal_strlit("7");
        reveal_strlit("8");
        reveal_strlit("9");
    }
    let r = if d == 0 {
        "0"
    } else if d == 1 {
        "1"
    } else if d == 2 {
        "2"
    } else if d == 3 {
        "3"
    } else if d == 4 {
        "4"
    } else if d == 5 {
        "5"
    } else if d == 6 {
        "6"
    } else if d == 7 {
        "7"
    } else if d == 8 {
        "8"
    } else {
        "9"
    };
    assert(r@ =~= seq![digit(d as nat)]);
    r
}

/// Appends the decimal numeral of `n` to `out`.
pub fn push_decimal(out: &mut String, n: usize)
    ensures
        final(out)@ == old(out)@ + decimal(n as nat),
    decreases n,
{
    broadcast use group_text;

    if n >= 10 {
        push_decimal(out, n / 10);
    }
    out.append(digit_str(n % 10));
}


/// A text without its leading and trailing whitespace, as `str::trim`
/// gives it.
pub uninterp spec fn trimmed_of(s: Seq<char>) -> Seq<char>;

/// The length of the first line of a text: the number of characters
/// before the first line feed, or all of them.
pub open spec fn line_len(s: Seq<char>) -> nat
    decreases s.len(),
{
    if s.len() == 0 || s[0] == '\n' {
        0
    } else {
        1 + line_len(s.skip(1))
    }
}

/// The lines of a text.  A line ends at a line feed, or at a carriage
/// return followed by a line feed; the line ending is no part of the
/// line.  A carriage return that no line feed follows is a part of its
/// line.  The last line needs no line ending.
pub open spec fn lines_of(s: Seq<char>) -> Seq<Seq<char>>
    decreases s.len(),
{
    if s.len() == 0 {
        Seq::empty()
    } else {
        let n = line_len(s);
        if n >= s.len() {
            seq![s]
        } else {
            let line = if n > 0 && s[n - 1] == '\r' {
                s.take(n - 1)
            } else {
                s.take(n as int)
            };
            seq![line] + lines_of(s.skip(n + 1 as int))
        }
    }
}

/// `str::trim`: the slice without leading and trailing whitespace, where
/// whitespace is what Unicode's `White_Space` property says.  The result is
/// known here only by the name [`trimmed_of`].
#[verifier::external_body]
pub(crate) fn trim(s: &str) -> (r: &str)
    ensures
        r@ == trimmed_of(s@),
{
    s.trim()
}

/// Whether a list of strings holds the given texts.
pub open spec fn holds_texts(strings: Seq<String>, texts: Seq<Seq<char>>) -> bool {
    &&& strings.len() == texts.len()
    &&& forall|i: int| 0 <= i < strings.len() ==> (#[trigger] strings[i])@ == texts[i]
}

/// `str::lines`, collected: the lines that std documents, which
/// [`lines_of`] restates.
#[verifier::external_body]
pub(crate) fn lines(s: &str) -> (r: Vec<String>)
    ensures
        holds_texts(r@, lines_of(s@)),
{
    s.lines().map(|line| line.to_owned()).collect()
}

/// The texts `prefix`, a number and `suffix`, for `count` numbers in a row
/// from `start` on.
pub open spec fn numbered(prefix: Seq<char>, suffix: Seq<char>, start: nat, count: nat) -> Seq<
    char,
>
    decreases count,
{
    if count == 0 {
        Seq::empty()
    } else {
        numbered(prefix, suffix, start, (count - 1) as nat) + prefix + decimal(
            (start + count - 1) as nat,
        ) + suffix
    }
}

/// Appends `prefix`, a number and `suffix` for each number from `start` up
/// to, not including, `end`.
pub fn push_numbered(out: &mut String, prefix: &str, suffix: &str, start: usize, end: usize)
    requires
        start <= end,
    ensures
        final(out)@ == old(out)@ + numbered(prefix@, suffix@, start as nat, (end - start) as nat),
{
    broadcast use group_text;

    let mut i: usize = start;
    while i < end
        invariant
            start <= i <= end,
            out@ == old(out)@ + numbered(prefix@, suffix@, start as nat, (i - start) as nat),
        decreases end - i,
    {
        out.append(prefix);
        push_decimal(out, i);
        out.append(suffix);
        i += 1;
    }
}

} // verus!
