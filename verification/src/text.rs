//! Text as sequences of characters: digits, decimal numbers, and splitting
//! a text into the fields between separators.

use vstd::prelude::*;

verus! {

/// What the standard library's `String::push` does: it appends one character
/// to the string. Nothing else is claimed of it.
pub assume_specification[ String::push ](s: &mut String, ch: char)
    ensures
        final(s)@ == old(s)@.push(ch),
;

/// The rows of a nested vector, as sequences.
pub open spec fn rows<T>(v: &Vec<Vec<T>>) -> Seq<Seq<T>> {
    Seq::new(v@.len(), |i: int| v@[i]@)
}

/// The characters of a string slice, in order.
pub fn chars_of(s: &str) -> (v: Vec<char>)
    ensures
        v@ == s@,
{
    let mut v: Vec<char> = Vec::new();
    for c in it: s.chars()
        invariant
            it.seq() == s@,
            v@ == it.seq().take(it.index() as int),
    {
        v.push(c);
    }
    assert(v@ =~= s@);
    v
}

/// Whether `c` is one of the ten decimal digits.
pub open spec fn is_digit(c: char) -> bool {
    '0' <= c <= '9'
}

/// The character that writes the digit `d`, for `0 <= d <= 9`.
pub open spec fn digit_char(d: int) -> char {
    (d + 48) as char
}

/// The number that the digit character `c` writes.
pub open spec fn digit_value(c: char) -> int {
    c as int - 48
}

/// The character that writes the digit `d`.
pub fn digit(d: u8) -> (c: char)
    requires
        d < 10,
    ensures
        c == digit_char(d as int),
        is_digit(c),
        digit_value(c) == d,
{
    (d + 48) as char
}

/// The number that `c` writes, if `c` is a digit.
pub fn digit_of(c: char) -> (res: Option<u8>)
    ensures
        res is Some <==> is_digit(c),
        res matches Some(d) ==> d == digit_value(c) && d < 10,
{
    if c >= '0' && c <= '9' {
        Some(((c as u32) - 48) as u8)
    } else {
        None
    }
}

/// The decimal text of `n`, without leading zeros.
pub open spec fn decimal(n: nat) -> Seq<char>
    decreases n,
{
    if n < 10 {
        seq![digit_char(n as int)]
    } else {
        decimal(n / 10).push(digit_char((n % 10) as int))
    }
}

/// Whether every character of `s` is a digit.
pub open spec fn all_digits(s: Seq<char>) -> bool {
    forall|i: int| 0 <= i < s.len() ==> is_digit(#[trigger] s[i])
}

/// The number that a run of digits writes in base ten; 0 for the empty run.
pub open spec fn digits_value(s: Seq<char>) -> nat
    decreases s.len(),
{
    if s.len() == 0 {
        0
    } else {
        (digits_value(s.drop_last()) * 10 + digit_value(s.last())) as nat
    }
}

/// The digits of an unsigned number text: the text itself, or what follows
/// a single leading `+`.
pub open spec fn unsigned_body(s: Seq<char>) -> Seq<char> {
    if s.len() > 0 && s[0] == '+' {
        s.skip(1)
    } else {
        s
    }
}

/// The number that `s` writes, if `s` is an unsigned decimal number that a
/// `usize` can hold: an optional `+`, then at least one digit.
pub open spec fn number(s: Seq<char>) -> Option<nat> {
    let body = unsigned_body(s);
    if body.len() > 0 && all_digits(body) && digits_value(body) <= usize::MAX {
        Some(digits_value(body))
    } else {
        None
    }
}

/// A longer run of digits writes a number at least as large as any of its
/// prefixes.
pub proof fn lemma_digits_value_grows(s: Seq<char>, k: int)
    requires
        all_digits(s),
        0 <= k <= s.len(),
    ensures
        digits_value(s.take(k)) <= digits_value(s),
    decreases s.len(),
{
    if k == s.len() {
        assert(s.take(k) =~= s);
    } else {
        let t = s.drop_last();
        assert(t.take(k) =~= s.take(k));
        lemma_digits_value_grows(t, k);
        assert(is_digit(s.last()));
    }
}

/// Appends the decimal text of `n`.
pub fn push_decimal(out: &mut String, n: usize)
    ensures
        final(out)@ == old(out)@ + decimal(n as nat),
    decreases n,
{
    if n >= 10 {
        push_decimal(out, n / 10);
    }
    out.push(digit((n % 10) as u8));
    assert(out@ =~= old(out)@ + decimal(n as nat));
}

/// Reads an unsigned decimal number.
pub fn parse_number(s: &Vec<char>) -> (res: Option<usize>)
    ensures
        res is Some <==> number(s@) is Some,
        res matches Some(n) ==> number(s@) == Some(n as nat),
{
    let start: usize = if s.len() > 0 && s[0] == '+' {
        1
    } else {
        0
    };
    let ghost body = unsigned_body(s@);
    if start == s.len() {
        return None;
    }
    let mut acc: usize = 0;
    let mut i: usize = start;
    assert(body.take(0) =~= Seq::<char>::empty());
    while i < s.len()
        invariant
            start <= i <= s.len(),
            start <= 1,
            body == unsigned_body(s@),
            body == s@.skip(start as int),
            all_digits(body.take(i - start)),
            acc == digits_value(body.take(i - start)),
        decreases s.len() - i,
    {
        let ghost k = i - start;
        let ghost next = body.take(k + 1);
        assert(next.drop_last() =~= body.take(k));
        assert(next.last() == s@[i as int]);
        match digit_of(s[i]) {
            None => {
                assert(body[k] == s@[i as int]);
                assert(!all_digits(body));
                return None;
            },
            Some(d) => {
                assert(all_digits(next));
                let tenfold: Option<usize> = acc.checked_mul(10);
                let sum: Option<usize> = match tenfold {
                    Some(t) => t.checked_add(d as usize),
                    None => None,
                };
                match sum {
                    Some(v) => {
                        acc = v;
                    },
                    None => {
                        proof {
                            assert(digits_value(next) > usize::MAX);
                            if all_digits(body) {
                                assert(body.take(k + 1) == next);
                                lemma_digits_value_grows(body, k + 1);
                            }
                        }
                        return None;
                    },
                }
            },
        }
        i += 1;
    }
    assert(body.take(i - start) =~= body);
    Some(acc)
}

/// The fields of `s` between occurrences of `sep`. A text without `sep` is
/// one field; two separators in a row enclose an empty field.
pub open spec fn split(s: Seq<char>, sep: char) -> Seq<Seq<char>>
    decreases s.len(),
{
    if s.len() == 0 {
        seq![Seq::<char>::empty()]
    } else {
        let head = split(s.drop_last(), sep);
        if s.last() == sep {
            head.push(Seq::<char>::empty())
        } else {
            head.drop_last().push(head.last().push(s.last()))
        }
    }
}

/// The fields written one after the other with `sep` between them.
pub open spec fn join(parts: Seq<Seq<char>>, sep: char) -> Seq<char>
    decreases parts.len(),
{
    if parts.len() == 0 {
        Seq::<char>::empty()
    } else if parts.len() == 1 {
        parts[0]
    } else {
        join(parts.drop_last(), sep).push(sep) + parts.last()
    }
}

/// Splits `s` into the fields between occurrences of `sep`.
pub fn split_chars(s: &Vec<char>, sep: char) -> (fields: Vec<Vec<char>>)
    ensures
        rows(&fields) == split(s@, sep),
{
    let mut fields: Vec<Vec<char>> = Vec::new();
    let mut current: Vec<char> = Vec::new();
    let mut i: usize = 0;
    assert(s@.take(0) =~= Seq::<char>::empty());
    assert(rows(&fields).push(current@) =~= split(s@.take(0), sep));
    while i < s.len()
        invariant
            i <= s.len(),
            rows(&fields).push(current@) == split(s@.take(i as int), sep),
        decreases s.len() - i,
    {
        let ghost before = rows(&fields).push(current@);
        let ghost prefix = s@.take(i + 1);
        assert(prefix.drop_last() =~= s@.take(i as int));
        assert(prefix.last() == s@[i as int]);
        let c: char = s[i];
        if c == sep {
            fields.push(current);
            current = Vec::new();
            assert(rows(&fields).push(current@) =~= before.push(Seq::<char>::empty()));
        } else {
            current.push(c);
            assert(rows(&fields).push(current@) =~= before.drop_last().push(
                before.last().push(c),
            ));
        }
        i += 1;
    }
    assert(s@.take(i as int) =~= s@);
    let ghost before = rows(&fields).push(current@);
    fields.push(current);
    assert(rows(&fields) =~= before);
    fields
}

} // verus!
