//! Small string-building helpers shared by the renderers: decimal formatting
//! of integers, zero-padding, the fixed-point weight format used by the
//! Moodle renderer, and the escaping functions that describe what the XML
//! writer and the HTML preview do to text.

use vstd::prelude::*;

verus! {

/// Relies on String::push_str: appends the slice to the end of the string.
#[verifier::external_body]
pub(crate) fn push_str(s: &mut String, t: &str)
    ensures
        final(s)@ == old(s)@ + t@,
{
    s.push_str(t)
}

/// Relies on String::push: appends the character to the end of the string.
#[verifier::external_body]
pub(crate) fn push_char(s: &mut String, c: char)
    ensures
        final(s)@ == old(s)@ + seq![c],
{
    s.push(c)
}

/// Strict lexicographic order on character sequences, by code point; on
/// ASCII strings it coincides with the byte order that `String`'s `Ord`
/// uses.
pub open spec fn str_lt(a: Seq<char>, b: Seq<char>) -> bool
    decreases a.len(),
{
    if b.len() == 0 {
        false
    } else if a.len() == 0 {
        true
    } else if a[0] != b[0] {
        a[0] < b[0]
    } else {
        str_lt(a.drop_first(), b.drop_first())
    }
}

/// The character for a single decimal digit.
pub open spec fn dec_digit(d: nat) -> char {
    if d == 0 {
        '0'
    } else if d == 1 {
        '1'
    } else if d == 2 {
        '2'
    } else if d == 3 {
        '3'
    } else if d == 4 {
        '4'
    } else if d == 5 {
        '5'
    } else if d == 6 {
        '6'
    } else if d == 7 {
        '7'
    } else if d == 8 {
        '8'
    } else {
        '9'
    }
}

/// Decimal notation of a natural number, without leading zeros.
pub open spec fn dec_str(n: nat) -> Seq<char>
    decreases n,
{
    if n < 10 {
        seq![dec_digit(n)]
    } else {
        dec_str(n / 10) + seq![dec_digit(n % 10)]
    }
}

fn dec_digit_char(d: u64) -> (c: char)
    requires
        d < 10,
    ensures
        c == dec_digit(d as nat),
{
    if d == 0 {
        '0'
    } else if d == 1 {
        '1'
    } else if d == 2 {
        '2'
    } else if d == 3 {
        '3'
    } else if d == 4 {
        '4'
    } else if d == 5 {
        '5'
    } else if d == 6 {
        '6'
    } else if d == 7 {
        '7'
    } else if d == 8 {
        '8'
    } else {
        '9'
    }
}

/// Decimal notation of `n`, as a `String`.
pub(crate) fn u64_to_dec(n: u64) -> (s: String)
    ensures
        s@ == dec_str(n as nat),
    decreases n,
{
    if n < 10 {
        let mut s = String::new();
        push_char(&mut s, dec_digit_char(n));
        s
    } else {
        let mut s = u64_to_dec(n / 10);
        push_char(&mut s, dec_digit_char(n % 10));
        s
    }
}

/// A run of `k` zero characters.
pub open spec fn zeros(k: nat) -> Seq<char>
    decreases k,
{
    if k == 0 {
        Seq::empty()
    } else {
        seq!['0'] + zeros((k - 1) as nat)
    }
}

/// Decimal notation of `n`, padded with zeros on the left to five digits.
pub open spec fn pad5(n: nat) -> Seq<char> {
    if dec_str(n).len() >= 5 {
        dec_str(n)
    } else {
        zeros((5 - dec_str(n).len()) as nat) + dec_str(n)
    }
}

/// The number of digits of `n` in decimal notation.
pub proof fn lemma_dec_str_len(n: nat)
    ensures
        n < 10 ==> dec_str(n).len() == 1,
        10 <= n < 100 ==> dec_str(n).len() == 2,
        100 <= n < 1000 ==> dec_str(n).len() == 3,
        1000 <= n < 10000 ==> dec_str(n).len() == 4,
        10000 <= n < 100000 ==> dec_str(n).len() == 5,
    decreases n,
{
    if n >= 10 {
        lemma_dec_str_len(n / 10);
    }
}

/// Decimal notation of `n < 100000`, padded with zeros on the left to five
/// digits.
pub(crate) fn u64_to_pad5(n: u64) -> (s: String)
    requires
        n < 100000,
    ensures
        s@ == pad5(n as nat),
{
    proof {
        lemma_dec_str_len(n as nat);
    }
    let mut s = String::new();
    if n < 10 {
        push_str(&mut s, "0000");
    } else if n < 100 {
        push_str(&mut s, "000");
    } else if n < 1000 {
        push_str(&mut s, "00");
    } else if n < 10000 {
        push_str(&mut s, "0");
    }
    let digits = u64_to_dec(n);
    push_str(&mut s, digits.as_str());
    proof {
        reveal_with_fuel(zeros, 6);
        reveal_strlit("0000");
        reveal_strlit("000");
        reveal_strlit("00");
        reveal_strlit("0");
        assert("0000"@ =~= zeros(4));
        assert("000"@ =~= zeros(3));
        assert("00"@ =~= zeros(2));
        assert("0"@ =~= zeros(1));
        assert(s@ =~= pad5(n as nat));
    }
    s
}

/// What the XML writer does to a text node: `<` becomes `&lt;`; everything
/// else, `&` and `>` included, is written as it is.
pub open spec fn esc_text(s: Seq<char>) -> Seq<char>
    decreases s.len(),
{
    if s.len() == 0 {
        s
    } else {
        (if s[0] == '<' {
            seq!['&', 'l', 't', ';']
        } else {
            seq![s[0]]
        }) + esc_text(s.drop_first())
    }
}

/// What the XML writer does to an attribute value: `"` becomes `&quot;`;
/// everything else is written as it is.
pub open spec fn esc_attr(s: Seq<char>) -> Seq<char>
    decreases s.len(),
{
    if s.len() == 0 {
        s
    } else {
        (if s[0] == '"' {
            seq!['&', 'q', 'u', 'o', 't', ';']
        } else {
            seq![s[0]]
        }) + esc_attr(s.drop_first())
    }
}

/// One character of a quoted name: `"` and `\` get a backslash in front,
/// every other character stands for itself.
pub open spec fn quote_char(c: char) -> Seq<char> {
    if c == '"' || c == '\\' {
        seq!['\\', c]
    } else {
        seq![c]
    }
}

/// The body of a quoted name, character by character.
pub open spec fn quote_body(s: Seq<char>) -> Seq<char>
    decreases s.len(),
{
    if s.len() == 0 {
        s
    } else {
        quote_char(s[0]) + quote_body(s.drop_first())
    }
}

/// A name wrapped in double quotes, with `"` and `\` escaped by a backslash.
pub open spec fn quoted(s: Seq<char>) -> Seq<char> {
    seq!['"'] + quote_body(s) + seq!['"']
}

proof fn lemma_quote_body_push(t: Seq<char>, c: char)
    ensures
        quote_body(t.push(c)) == quote_body(t) + quote_char(c),
    decreases t.len(),
{
    if t.len() == 0 {
        assert(t.push(c).drop_first() =~= t);
        assert(quote_body(t.push(c)) =~= quote_body(t) + quote_char(c));
    } else {
        assert(t.push(c).drop_first() =~= t.drop_first().push(c));
        lemma_quote_body_push(t.drop_first(), c);
        assert(quote_body(t.push(c)) =~= quote_body(t) + quote_char(c));
    }
}

/// The name wrapped in double quotes, with `"` and `\` escaped.
pub(crate) fn quote_name(name: &str) -> (s: String)
    ensures
        s@ == quoted(name@),
{
    let len: usize = name.unicode_len();
    let mut s = String::new();
    push_char(&mut s, '"');
    let mut i: usize = 0;
    while i < len
        invariant
            len == name@.len(),
            0 <= i <= len,
            s@ == seq!['"'] + quote_body(name@.take(i as int)),
        decreases len - i,
    {
        let c = name.get_char(i);
        proof {
            lemma_quote_body_push(name@.take(i as int), c);
            assert(name@.take(i as int).push(c) =~= name@.take(i + 1 as int));
        }
        if c == '"' || c == '\\' {
            push_char(&mut s, '\\');
            push_char(&mut s, c);
        } else {
            push_char(&mut s, c);
        }
        i = i + 1;
    }
    push_char(&mut s, '"');
    proof {
        assert(name@.take(len as int) =~= name@);
        assert(s@ =~= quoted(name@));
    }
    s
}

} // verus!
