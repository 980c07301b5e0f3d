use vstd::prelude::*;

verus! {

broadcast use vstd::string::group_string_axioms;

/// Appends one character to a string.
///
/// Trusted: wraps `String::push`, which std documents as appending the given
/// `char` to the end of the string; the contract says exactly that.
#[verifier::external_body]
pub(crate) fn push_char(s: &mut String, c: char)
    ensures
        final(s)@ == old(s)@.push(c),
{
    s.push(c);
}

/// The characters of `s`, in order.
pub fn chars_of(s: &str) -> (v: Vec<char>)
    ensures
        v@ == s@,
{
    let mut v: Vec<char> = Vec::new();
    for c in it: s.chars()
        invariant
            it.seq() == s@,
            v@ == it.seq().take(it.index()),
    {
        v.push(c);
    }
    v
}

} // verus!

verus! {

/// Whether two strings hold the same characters.
pub fn str_equals(a: &str, b: &str) -> (r: bool)
    ensures
        r == (a@ == b@),
{
    let x = chars_of(a);
    let y = chars_of(b);
    if x.len() != y.len() {
        return false;
    }
    let mut i: usize = 0;
    while i < x.len()
        invariant
            x@ == a@,
            y@ == b@,
            x@.len() == y@.len(),
            0 <= i <= x@.len(),
            forall|j: int| 0 <= j < i ==> x@[j] == y@[j],
        decreases x@.len() - i,
    {
        if x[i] != y[i] {
            return false;
        }
        i = i + 1;
    }
    assert(x@ =~= y@);
    true
}

/// Whether `s` begins with the characters of `prefix`.
pub fn starts_with(s: &str, prefix: &str) -> (r: bool)
    ensures
        r == prefix@.is_prefix_of(s@),
{
    let x = chars_of(s);
    let p = chars_of(prefix);
    if p.len() > x.len() {
        return false;
    }
    let mut i: usize = 0;
    while i < p.len()
        invariant
            x@ == s@,
            p@ == prefix@,
            p@.len() <= x@.len(),
            0 <= i <= p@.len(),
            forall|j: int| 0 <= j < i ==> p@[j] == x@[j],
        decreases p@.len() - i,
    {
        if x[i] != p[i] {
            assert(x@.take(p@.len() as int)[i as int] != p@[i as int]);
            return false;
        }
        i = i + 1;
    }
    assert(x@.take(p@.len() as int) =~= p@);
    true
}

/// The characters of `s` after `prefix`, when `s` begins with `prefix`.
pub fn strip_prefix(s: &str, prefix: &str) -> (r: Option<String>)
    ensures
        r is Some <==> prefix@.is_prefix_of(s@),
        r matches Some(rest) ==> rest@ == s@.skip(prefix@.len() as int),
{
    if !starts_with(s, prefix) {
        return None;
    }
    let x = chars_of(s);
    let n: usize = prefix.unicode_len();
    let mut rest = String::new();
    let mut i: usize = n;
    while i < x.len()
        invariant
            x@ == s@,
            n == prefix@.len(),
            n <= x@.len(),
            n <= i <= x@.len(),
            rest@ == x@.subrange(n as int, i as int),
        decreases x@.len() - i,
    {
        push_char(&mut rest, x[i]);
        assert(x@.subrange(n as int, i + 1) =~= x@.subrange(n as int, i as int).push(x@[i as int]));
        i = i + 1;
    }
    assert(rest@ =~= s@.skip(n as int));
    Some(rest)
}

/// The decimal digit characters, by value.
pub open spec fn decimal_digits() -> Seq<char> {
    seq!['0', '1', '2', '3', '4', '5', '6', '7', '8', '9']
}

/// The lower-case hexadecimal digit characters, by value.
pub open spec fn hex_digits() -> Seq<char> {
    seq!['0', '1', '2', '3', '4', '5', '6', '7', '8', '9', 'a', 'b', 'c', 'd', 'e', 'f']
}

/// The character of the decimal digit `d`.
pub(crate) fn decimal_digit(d: u8) -> (c: char)
    requires
        d < 10,
    ensures
        c == decimal_digits()[d as int],
{
    match d {
        0 => '0',
        1 => '1',
        2 => '2',
        3 => '3',
        4 => '4',
        5 => '5',
        6 => '6',
        7 => '7',
        8 => '8',
        _ => '9',
    }
}

/// The character of the hexadecimal digit `d`, lower case.
pub(crate) fn hex_digit(d: u32) -> (c: char)
    requires
        d < 16,
    ensures
        c == hex_digits()[d as int],
{
    if d < 10 {
        decimal_digit(d as u8)
    } else {
        match d {
            10 => 'a',
            11 => 'b',
            12 => 'c',
            13 => 'd',
            14 => 'e',
            _ => 'f',
        }
    }
}

/// The decimal notation of `n`: its digits, most significant first, with no
/// leading zero (zero itself is the single digit `0`).
pub open spec fn spec_decimal(n: nat) -> Seq<char>
    decreases n,
{
    if n < 10 {
        seq![decimal_digits()[n as int]]
    } else {
        spec_decimal(n / 10).push(decimal_digits()[(n % 10) as int])
    }
}

/// The number that a string of decimal digits denotes.
pub open spec fn decimal_value(s: Seq<char>) -> int
    decreases s.len(),
{
    if s.len() == 0 {
        0
    } else {
        decimal_value(s.drop_last()) * 10 + (s.last() as int - '0' as int)
    }
}

/// Writes `n` in decimal, as `{}` formats an unsigned integer.
pub fn decimal_text(n: u128) -> (r: String)
    ensures
        r@ == spec_decimal(n as nat),
    decreases n,
{
    if n < 10 {
        let mut s = String::new();
        push_char(&mut s, decimal_digit(n as u8));
        s
    } else {
        let mut s = decimal_text(n / 10);
        push_char(&mut s, decimal_digit((n % 10) as u8));
        s
    }
}

/// The digit character of value `k` lies `k` places after `0`.
proof fn lemma_digit_value(k: int)
    requires
        0 <= k < 10,
    ensures
        decimal_digits()[k] as int - '0' as int == k,
{
    let d = decimal_digits();
    if k == 0 { assert(d[0] == '0'); }
    else if k == 1 { assert(d[1] == '1'); }
    else if k == 2 { assert(d[2] == '2'); }
    else if k == 3 { assert(d[3] == '3'); }
    else if k == 4 { assert(d[4] == '4'); }
    else if k == 5 { assert(d[5] == '5'); }
    else if k == 6 { assert(d[6] == '6'); }
    else if k == 7 { assert(d[7] == '7'); }
    else if k == 8 { assert(d[8] == '8'); }
    else { assert(d[9] == '9'); }
}

/// Law: decimal notation reads back as the number written, and holds
/// nothing but decimal digits.
pub proof fn lemma_decimal_reads_back(n: nat)
    ensures
        decimal_value(spec_decimal(n)) == n,
        spec_decimal(n).len() >= 1,
        forall|i: int| 0 <= i < spec_decimal(n).len() ==> decimal_digits().contains(#[trigger] spec_decimal(n)[i]),
    decreases n,
{
    let d = decimal_digits();
    if n < 10 {
        let s = spec_decimal(n);
        assert(s.drop_last() =~= Seq::<char>::empty());
        assert(d.contains(d[n as int]));
        lemma_digit_value(n as int);
        assert(decimal_value(s.drop_last()) == 0);
        assert(s.last() == d[n as int]);
    } else {
        lemma_digit_value((n % 10) as int);
        lemma_decimal_reads_back(n / 10);
        let s = spec_decimal(n);
        assert(s.drop_last() =~= spec_decimal(n / 10));
        assert(s.last() == d[(n % 10) as int]);
        assert((n / 10) * 10 + n % 10 == n);
        assert(d.contains(d[(n % 10) as int]));
        assert forall|i: int| 0 <= i < s.len() implies d.contains(#[trigger] s[i]) by {
            if i < s.len() - 1 {
                assert(s[i] == spec_decimal(n / 10)[i]);
            }
        }
    }
}

} // verus!
