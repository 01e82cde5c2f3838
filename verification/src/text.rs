//! Text building blocks: label-value escaping and decimal rendering of integers.

use vstd::prelude::*;

verus! {

/// Escaped form of a single character of a label value.
pub open spec fn escape_char(c: char) -> Seq<char> {
    if c == '\\' {
        seq!['\\', '\\']
    } else if c == '"' {
        seq!['\\', '"']
    } else if c == '\n' {
        seq!['\\', 'n']
    } else {
        seq![c]
    }
}

/// Escaped form of a label value: every character replaced by [`escape_char`], left to right.
pub open spec fn escape(s: Seq<char>) -> Seq<char>
    decreases s.len(),
{
    if s.len() == 0 {
        Seq::empty()
    } else {
        escape_char(s[0]) + escape(s.drop_first())
    }
}

/// Inverse reading of an escaped label value: a backslash followed by `\`, `"` or `n`
/// stands for one character, every other character stands for itself.
pub open spec fn unescape(s: Seq<char>) -> Seq<char>
    decreases s.len(),
{
    if s.len() == 0 {
        Seq::empty()
    } else if s[0] == '\\' && s.len() >= 2 && s[1] == '\\' {
        seq!['\\'] + unescape(s.skip(2))
    } else if s[0] == '\\' && s.len() >= 2 && s[1] == '"' {
        seq!['"'] + unescape(s.skip(2))
    } else if s[0] == '\\' && s.len() >= 2 && s[1] == 'n' {
        seq!['\n'] + unescape(s.skip(2))
    } else {
        seq![s[0]] + unescape(s.drop_first())
    }
}

/// Escaping distributes over concatenation.
pub proof fn lemma_escape_concat(a: Seq<char>, b: Seq<char>)
    ensures
        escape(a + b) == escape(a) + escape(b),
    decreases a.len(),
{
    if a.len() > 0 {
        assert((a + b).drop_first() =~= a.drop_first() + b);
        lemma_escape_concat(a.drop_first(), b);
    }
}

/// Escaping a value extended by one character appends that character's escaped form.
pub proof fn lemma_escape_push(a: Seq<char>, c: char)
    ensures
        escape(a.push(c)) == escape(a) + escape_char(c),
{
    let one = seq![c];
    assert(a.push(c) =~= a + one);
    lemma_escape_concat(a, one);
    assert(escape(one.drop_first()) =~= Seq::<char>::empty());
}

/// Unescaping the escaped form of any label value gives the value back.
pub proof fn lemma_unescape_escape(s: Seq<char>)
    ensures
        unescape(escape(s)) == s,
    decreases s.len(),
{
    if s.len() > 0 {
        let c = s[0];
        let rest = s.drop_first();
        let e = escape(s);
        lemma_unescape_escape(rest);
        if c == '\\' || c == '"' || c == '\n' {
            assert(e.skip(2) =~= escape(rest));
        } else {
            assert(e.drop_first() =~= escape(rest));
        }
    }
}

/// Appends one character to a string.
///
/// Stands for `String::push`, which puts the given character at the end of the string
/// and changes nothing else.
#[verifier::external_body]
pub(crate) fn push_char(out: &mut String, c: char)
    ensures
        final(out)@ == old(out)@.push(c),
{
    out.push(c);
}

/// Appends a string slice to a string.
pub(crate) fn push_text(out: &mut String, s: &str)
    ensures
        final(out)@ == old(out)@ + s@,
{
    out.append(s);
}

/// Escapes a label value for embedding between double quotes: `\` becomes `\\`,
/// `"` becomes `\"`, a line feed becomes `\n`; everything else is copied.
pub fn escape_label_value(val: &str) -> (escaped: String)
    ensures
        escaped@ == escape(val@),
{
    let mut escaped = String::new();
    for c in it: val.chars()
        invariant
            it.seq() == val@,
            escaped@ == escape(val@.take(it.index())),
    {
        proof {
            let done = val@.take(it.index());
            assert(val@.take(it.index() + 1) =~= done.push(c));
            lemma_escape_push(done, c);
        }
        if c == '\\' {
            push_char(&mut escaped, '\\');
            push_char(&mut escaped, '\\');
        } else if c == '"' {
            push_char(&mut escaped, '\\');
            push_char(&mut escaped, '"');
        } else if c == '\n' {
            push_char(&mut escaped, '\\');
            push_char(&mut escaped, 'n');
        } else {
            push_char(&mut escaped, c);
        }
    }
    assert(val@.take(val@.len() as int) =~= val@);
    escaped
}

/// Character of a decimal digit.
pub open spec fn digit_char(d: int) -> char {
    if d == 0 {
        '0'
    } else if d == 1 {
        '1'
    } else if d == 2 {
        '2'
    } else if d == 3 {
        '3'
    } else if d == 4 {
        '4'
    } else if d == 5 {
        '5'
    } else if d == 6 {
        '6'
    } else if d == 7 {
        '7'
    } else if d == 8 {
        '8'
    } else {
        '9'
    }
}

/// Decimal digits of a natural number, most significant first, without leading zeros.
pub open spec fn decimal_digits(n: nat) -> Seq<char>
    decreases n,
{
    if n < 10 {
        seq![digit_char(n as int)]
    } else {
        decimal_digits(n / 10).push(digit_char((n % 10) as int))
    }
}

/// Decimal text of an integer: a minus sign for negative numbers, then the digits of
/// its magnitude.
pub open spec fn decimal_text(i: int) -> Seq<char> {
    if i < 0 {
        seq!['-'] + decimal_digits((-i) as nat)
    } else {
        decimal_digits(i as nat)
    }
}

fn digit_to_char(d: u64) -> (c: char)
    requires
        d < 10,
    ensures
        c == digit_char(d as int),
{
    if d == 0 {
        '0'
    } else if d == 1 {
        '1'
    } else if d == 2 {
        '2'
    } else if d == 3 {
        '3'
    } else if d == 4 {
        '4'
    } else if d == 5 {
        '5'
    } else if d == 6 {
        '6'
    } else if d == 7 {
        '7'
    } else if d == 8 {
        '8'
    } else {
        '9'
    }
}

/// Appends the decimal digits of `v` to `out`.
pub(crate) fn push_decimal(out: &mut String, v: u64)
    ensures
        final(out)@ == old(out)@ + decimal_digits(v as nat),
{
    // Digits are produced least significant first and written back in reverse.
    let mut reversed: Vec<char> = Vec::new();
    let ghost mut tail: Seq<char> = Seq::empty();
    let mut rest: u64 = v;
    loop
        invariant_except_break
            decimal_digits(v as nat) == decimal_digits(rest as nat) + tail,
        invariant
            tail.len() == reversed.len(),
            forall|j: int| 0 <= j < tail.len() ==> reversed[j] == tail[tail.len() - 1 - j],
        ensures
            decimal_digits(v as nat) == tail,
            tail.len() > 0,
        decreases rest,
    {
        let d: u64 = rest % 10;
        let c = digit_to_char(d);
        proof {
            tail = seq![c] + tail;
        }
        reversed.push(c);
        if rest < 10 {
            break ;
        }
        rest = rest / 10;
    }
    let mut k: usize = reversed.len();
    let ghost start = out@;
    while k > 0
        invariant
            k <= reversed.len(),
            tail.len() == reversed.len(),
            forall|j: int| 0 <= j < tail.len() ==> reversed[j] == tail[tail.len() - 1 - j],
            out@ == start + tail.take(reversed.len() - k),
        decreases k,
    {
        k = k - 1;
        push_char(out, reversed[k]);
    }
}

/// Canonical decimal text of an unsigned integer.
pub fn format_unsigned(v: u64) -> (s: String)
    ensures
        s@ == decimal_text(v as int),
{
    let mut s = String::new();
    push_decimal(&mut s, v);
    s
}

/// Canonical decimal text of a signed integer.
pub fn format_signed(v: i64) -> (s: String)
    ensures
        s@ == decimal_text(v as int),
{
    let mut s = String::new();
    if v < 0 {
        let magnitude: u64 = (-(v + 1)) as u64 + 1;
        push_char(&mut s, '-');
        push_decimal(&mut s, magnitude);
    } else {
        push_decimal(&mut s, v as u64);
    }
    s
}

} // verus!
