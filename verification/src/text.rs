//! Character-level helpers shared by the label encoders and decoders.
use vstd::prelude::*;

verus! {

/// The character of a decimal digit `d < 10`.
pub open spec fn digit_char(d: nat) -> char {
    ((d + 48) as char)
}

/// The decimal representation of `n`, most significant digit first, without
/// leading zeros (`0` is written as a single `0`).
pub open spec fn decimal(n: nat) -> Seq<char>
    decreases n,
{
    if n < 10 {
        seq![digit_char(n)]
    } else {
        decimal(n / 10).push(digit_char(n % 10))
    }
}

/// The number that a decimal digit character stands for.
pub open spec fn digit_value(c: char) -> int {
    c as int - 48
}

/// The number that a sequence of decimal digits stands for.
pub open spec fn decimal_value(digits: Seq<char>) -> int
    decreases digits.len(),
{
    if digits.len() == 0 {
        0
    } else {
        decimal_value(digits.drop_last()) * 10 + digit_value(digits.last())
    }
}

/// The decimal representation of `n` is made of digits, starts with `0` only
/// when it is `0`, and reads back as `n`.
pub proof fn lemma_decimal(n: nat)
    ensures
        decimal(n).len() >= 1,
        forall|i: int| 0 <= i < decimal(n).len() ==> '0' <= #[trigger] decimal(n)[i] <= '9',
        decimal(n)[0] == '0' ==> n == 0,
        decimal_value(decimal(n)) == n,
    decreases n,
{
    if n < 10 {
        assert(digit_char(n) as int == n + 48);
        assert(decimal(n).drop_last() =~= Seq::<char>::empty());
        assert(decimal(n).last() == digit_char(n));
        assert(decimal_value(decimal(n)) == decimal_value(Seq::<char>::empty()) * 10 + digit_value(
            digit_char(n),
        ));
    } else {
        lemma_decimal(n / 10);
        let d = n % 10;
        assert(digit_char(d) as int == d + 48);
        assert(decimal(n).drop_last() =~= decimal(n / 10));
        assert forall|i: int| 0 <= i < decimal(n).len() implies '0' <= #[trigger] decimal(n)[i]
            <= '9' by {
            if i < decimal(n / 10).len() {
                assert(decimal(n)[i] == decimal(n / 10)[i]);
            }
        }
        assert(decimal(n)[0] == decimal(n / 10)[0]);
        assert(decimal(n).last() == digit_char(d));
        assert((n / 10) * 10 + d == n);
        assert(decimal_value(decimal(n)) == decimal_value(decimal(n / 10)) * 10 + digit_value(
            digit_char(d),
        ));
    }
}

/// The two-character delimiter `//` starts at position `i` of `s`.
pub open spec fn delimiter_at(s: Seq<char>, i: int) -> bool {
    0 <= i && i + 1 < s.len() && s[i] == '/' && s[i + 1] == '/'
}

/// The first position at or after `from` where the delimiter `//` starts.
pub open spec fn first_delimiter_from(s: Seq<char>, from: int) -> Option<int>
    decreases s.len() - from,
{
    if from < 0 || from + 1 >= s.len() {
        None
    } else if delimiter_at(s, from) {
        Some(from)
    } else {
        first_delimiter_from(s, from + 1)
    }
}

/// What `first_delimiter_from` finds is a delimiter, and nothing before it is.
pub proof fn lemma_first_delimiter_from(s: Seq<char>, from: int)
    requires
        0 <= from,
    ensures
        match first_delimiter_from(s, from) {
            Some(k) => from <= k && delimiter_at(s, k) && forall|j: int|
                from <= j < k ==> !delimiter_at(s, j),
            None => forall|j: int| from <= j ==> !delimiter_at(s, j),
        },
    decreases s.len() - from,
{
    if from + 1 >= s.len() {
    } else if delimiter_at(s, from) {
    } else {
        lemma_first_delimiter_from(s, from + 1);
    }
}

/// A position that is a delimiter and has none before it is the first one.
pub proof fn lemma_first_delimiter_is(s: Seq<char>, from: int, k: int)
    requires
        0 <= from <= k,
        delimiter_at(s, k),
        forall|j: int| from <= j < k ==> !delimiter_at(s, j),
    ensures
        first_delimiter_from(s, from) == Some(k),
    decreases k - from,
{
    if from < k {
        lemma_first_delimiter_is(s, from + 1, k);
    }
}

/// A sequence with no delimiter anywhere has no first delimiter.
pub proof fn lemma_no_delimiter(s: Seq<char>, from: int)
    requires
        0 <= from,
        forall|j: int| from <= j ==> !delimiter_at(s, j),
    ensures
        first_delimiter_from(s, from) is None,
    decreases s.len() - from,
{
    if from + 1 < s.len() {
        lemma_no_delimiter(s, from + 1);
    }
}

/// The string of one decimal digit.
fn digit_str(d: u32) -> (s: &'static str)
    requires
        d < 10,
    ensures
        s@ == seq![digit_char(d as nat)],
{
    match d {
        0 => { proof { reveal_strlit("0"); } "0" },
        1 => { proof { reveal_strlit("1"); } "1" },
        2 => { proof { reveal_strlit("2"); } "2" },
        3 => { proof { reveal_strlit("3"); } "3" },
        4 => { proof { reveal_strlit("4"); } "4" },
        5 => { proof { reveal_strlit("5"); } "5" },
        6 => { proof { reveal_strlit("6"); } "6" },
        7 => { proof { reveal_strlit("7"); } "7" },
        8 => { proof { reveal_strlit("8"); } "8" },
        _ => { proof { reveal_strlit("9"); } "9" },
    }
}

/// Appends the decimal representation of `n` to `out`.
pub fn push_decimal(out: &mut String, n: u32)
    ensures
        final(out)@ == old(out)@ + decimal(n as nat),
    decreases n,
{
    if n >= 10 {
        push_decimal(out, n / 10);
    }
    out.append(digit_str(n % 10));
    proof {
        assert(decimal(n as nat) == if n < 10 { seq![digit_char(n as nat)] } else {
            decimal((n / 10) as nat).push(digit_char((n % 10) as nat))
        });
    }
}

/// The decimal representation of `n`, as `format!("{}", n)` writes it.
pub fn u32_to_decimal(n: u32) -> (s: String)
    ensures
        s@ == decimal(n as nat),
{
    let mut s = String::new();
    push_decimal(&mut s, n);
    s
}

/// The first position at or after `from` where the delimiter `//` starts in `s`.
pub fn find_delimiter(s: &str, from: usize) -> (r: Option<usize>)
    ensures
        match r {
            Some(k) => first_delimiter_from(s@, from as int) == Some(k as int),
            None => first_delimiter_from(s@, from as int) is None,
        },
{
    let len = s.unicode_len();
    let mut i = from;
    while i < len && i + 1 < len
        invariant
            len == s@.len(),
            from <= i,
            forall|j: int| from <= j < i ==> !delimiter_at(s@, j),
        decreases len - i,
    {
        if s.get_char(i) == '/' && s.get_char(i + 1) == '/' {
            proof {
                lemma_first_delimiter_is(s@, from as int, i as int);
            }
            return Some(i);
        }
        i = i + 1;
    }
    proof {
        lemma_no_delimiter(s@, from as int);
    }
    None
}

/// Whether `a` and `b` hold the same characters.
pub fn str_equal(a: &str, b: &str) -> (r: bool)
    ensures
        r == (a@ == b@),
{
    let n = a.unicode_len();
    if n != b.unicode_len() {
        return false;
    }
    let mut i: usize = 0;
    while i < n
        invariant
            n == a@.len(),
            n == b@.len(),
            i <= n,
            forall|j: int| 0 <= j < i ==> a@[j] == b@[j],
        decreases n - i,
    {
        if a.get_char(i) != b.get_char(i) {
            return false;
        }
        i = i + 1;
    }
    assert(a@ =~= b@);
    true
}

/// An owned copy of the characters of `s` from position `from` up to `to`.
pub fn substring(s: &str, from: usize, to: usize) -> (r: String)
    requires
        from <= to <= s@.len(),
    ensures
        r@ == s@.subrange(from as int, to as int),
{
    String::from_str(s.substring_char(from, to))
}

} // verus!
