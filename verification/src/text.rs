//! Character-sequence helpers: equality, case folding, and the synthesis of
//! derived node names (a base name plus an index or role suffix).

use vstd::prelude::*;

verus! {

/// The character for a single decimal digit value.
pub open spec fn digit_char(d: nat) -> char {
    if d == 0 {
        '0'
    } else if d == 1 {
        '1'
    } else if d == 2 {
        '2'
    } else if d == 3 {
        '3'
    } else if d == 4 {
        '4'
    } else if d == 5 {
        '5'
    } else if d == 6 {
        '6'
    } else if d == 7 {
        '7'
    } else if d == 8 {
        '8'
    } else {
        '9'
    }
}

/// Decimal digits of `n`, most significant first.
pub open spec fn dec_digits(n: nat) -> Seq<char>
    decreases n,
{
    if n < 10 {
        seq![digit_char(n)]
    } else {
        dec_digits(n / 10).push(digit_char(n % 10))
    }
}

/// The name of the child node standing for slot `i` of a sequence or choice:
/// the base name, an underscore, and the slot index in decimal.
pub open spec fn slot_name(base: Seq<char>, i: nat) -> Seq<char> {
    base + seq!['_'] + dec_digits(i)
}

/// The name of the child node for a one-child combinator: the base name, an
/// underscore, and a one-character role marker.
pub open spec fn role_name(base: Seq<char>, role: char) -> Seq<char> {
    base + seq!['_', role]
}

/// ASCII case folding on a codepoint: upper-case letters map to lower case,
/// every other codepoint is unchanged.
pub open spec fn fold_code(c: u32) -> u32 {
    if 65 <= c && c <= 90 {
        (c + 32) as u32
    } else {
        c
    }
}

fn digit_char_exec(d: usize) -> (r: char)
    requires
        d < 10,
    ensures
        r == digit_char(d as nat),
{
    if d == 0 {
        '0'
    } else if d == 1 {
        '1'
    } else if d == 2 {
        '2'
    } else if d == 3 {
        '3'
    } else if d == 4 {
        '4'
    } else if d == 5 {
        '5'
    } else if d == 6 {
        '6'
    } else if d == 7 {
        '7'
    } else if d == 8 {
        '8'
    } else {
        '9'
    }
}

fn push_dec_digits(out: &mut Vec<char>, n: usize)
    ensures
        final(out)@ == old(out)@ + dec_digits(n as nat),
    decreases n,
{
    if n < 10 {
        let d = digit_char_exec(n);
        out.push(d);
        assert(final(out)@ =~= old(out)@ + dec_digits(n as nat));
    } else {
        push_dec_digits(out, n / 10);
        let d = digit_char_exec(n % 10);
        out.push(d);
        assert(final(out)@ =~= old(out)@ + dec_digits(n as nat));
    }
}

/// A fresh copy of a character vector.
pub fn copy_chars(v: &Vec<char>) -> (r: Vec<char>)
    ensures
        r@ == v@,
{
    let mut out: Vec<char> = Vec::new();
    let mut i: usize = 0;
    while i < v.len()
        invariant
            i <= v.len(),
            out@ == v@.subrange(0, i as int),
        decreases v.len() - i,
    {
        out.push(v[i]);
        i = i + 1;
    }
    assert(out@ =~= v@);
    out
}

/// Builds the derived name `slot_name(base, i)`.
pub fn make_slot_name(base: &Vec<char>, i: usize) -> (r: Vec<char>)
    ensures
        r@ == slot_name(base@, i as nat),
{
    let mut out = copy_chars(base);
    out.push('_');
    assert(out@ =~= base@ + seq!['_']);
    push_dec_digits(&mut out, i);
    out
}

/// Builds the derived name `role_name(base, role)`.
pub fn make_role_name(base: &Vec<char>, role: char) -> (r: Vec<char>)
    ensures
        r@ == role_name(base@, role),
{
    let mut out = copy_chars(base);
    out.push('_');
    out.push(role);
    assert(out@ =~= role_name(base@, role));
    out
}

/// Character-sequence equality.
pub fn chars_eq(a: &Vec<char>, b: &Vec<char>) -> (r: bool)
    ensures
        r == (a@ == b@),
{
    if a.len() != b.len() {
        return false;
    }
    let mut i: usize = 0;
    while i < a.len()
        invariant
            a.len() == b.len(),
            i <= a.len(),
            forall|j: int| 0 <= j < i ==> a@[j] == b@[j],
        decreases a.len() - i,
    {
        if a[i] != b[i] {
            return false;
        }
        i = i + 1;
    }
    assert(a@ =~= b@);
    true
}

} // verus!
