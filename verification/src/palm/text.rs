//! ASCII byte strings: the text that Palm resources hold.
use vstd::prelude::*;

verus! {

/// A visible ASCII character (`!` to `~`).
pub open spec fn is_graphic(b: u8) -> bool {
    0x21 <= b <= 0x7E
}

/// A visible ASCII character or a space.
pub open spec fn is_printable(b: u8) -> bool {
    b == 0x20 || is_graphic(b)
}

pub open spec fn all_printable(s: Seq<u8>) -> bool {
    forall|i: int| 0 <= i < s.len() ==> is_printable(#[trigger] s[i])
}

pub open spec fn all_ascii(s: Seq<u8>) -> bool {
    forall|i: int| 0 <= i < s.len() ==> #[trigger] s[i] < 0x80
}

/// The characters of an ASCII byte string.
pub open spec fn ascii_chars(s: Seq<u8>) -> Seq<char> {
    s.map_values(|b: u8| b as char)
}

/// `s` without its leading spaces.
pub open spec fn trim_start(s: Seq<u8>) -> Seq<u8>
    decreases s.len(),
{
    if s.len() > 0 && s[0] == 0x20 {
        trim_start(s.drop_first())
    } else {
        s
    }
}

/// `s` without its trailing spaces.
pub open spec fn trim_end(s: Seq<u8>) -> Seq<u8>
    decreases s.len(),
{
    if s.len() > 0 && s.last() == 0x20 {
        trim_end(s.drop_last())
    } else {
        s
    }
}

/// `s` without leading and trailing spaces (the only white space that a
/// printable ASCII string can hold).
pub open spec fn trim(s: Seq<u8>) -> Seq<u8> {
    trim_end(trim_start(s))
}

pub open spec fn lower_byte(b: u8) -> u8 {
    if 0x41 <= b <= 0x5A { (b + 0x20) as u8 } else { b }
}

pub open spec fn upper_byte(b: u8) -> u8 {
    if 0x61 <= b <= 0x7A { (b - 0x20) as u8 } else { b }
}

pub open spec fn is_alnum(b: u8) -> bool {
    (0x30 <= b <= 0x39) || (0x41 <= b <= 0x5A) || (0x61 <= b <= 0x7A)
}

/// `s` with ASCII capitals turned into small letters.
pub open spec fn lower(s: Seq<u8>) -> Seq<u8> {
    s.map_values(|b: u8| lower_byte(b))
}

/// The decimal digits of `n`.
pub open spec fn decimal(n: nat) -> Seq<u8>
    decreases n,
{
    if n < 10 {
        seq![(0x30 + n) as u8]
    } else {
        decimal(n / 10).push((0x30 + n % 10) as u8)
    }
}

/// Turns ASCII bytes into a `&str` with `std::str::from_utf8`. ASCII is
/// valid UTF-8 and each of its bytes is one character, so on ASCII input
/// this claims the call succeeds with exactly those characters; on other
/// input nothing is claimed.
#[verifier::external_body]
fn ascii_str(bytes: &[u8]) -> (s: Option<&str>)
    ensures
        all_ascii(bytes@) ==> s.is_some() && s.unwrap()@ == ascii_chars(bytes@),
{
    match std::str::from_utf8(bytes) {
        Ok(s) => Some(s),
        Err(_) => None,
    }
}

/// An owned string holding the ASCII bytes `bytes`.
pub fn ascii_string(bytes: &[u8]) -> (s: String)
    requires
        all_ascii(bytes@),
    ensures
        s@ == ascii_chars(bytes@),
{
    match ascii_str(bytes) {
        Some(t) => t.to_owned(),
        None => String::new(),
    }
}

/// `s` without leading and trailing spaces.
pub fn trim_spaces(s: &[u8]) -> (t: Vec<u8>)
    ensures
        t@ == trim(s@),
{
    let mut a: usize = 0;
    assert(s@.subrange(0, s@.len() as int) =~= s@);
    while a < s.len() && s[a] == 0x20
        invariant
            a <= s@.len(),
            trim_start(s@) == trim_start(s@.subrange(a as int, s@.len() as int)),
        decreases s@.len() - a,
    {
        assert(s@.subrange(a as int, s@.len() as int).drop_first() =~= s@.subrange(a + 1, s@.len() as int));
        a += 1;
    }
    assert(trim_start(s@.subrange(a as int, s@.len() as int)) == s@.subrange(a as int, s@.len() as int));
    let mut b: usize = s.len();
    while b > a && s[b - 1] == 0x20
        invariant
            a <= b <= s@.len(),
            trim(s@) == trim_end(s@.subrange(a as int, b as int)),
        decreases b,
    {
        assert(s@.subrange(a as int, b as int).drop_last() =~= s@.subrange(a as int, b - 1));
        b -= 1;
    }
    assert(trim_end(s@.subrange(a as int, b as int)) == s@.subrange(a as int, b as int));
    vstd::slice::slice_to_vec(vstd::slice::slice_subrange(s, a, b))
}

/// `s` with ASCII capitals turned into small letters.
pub fn to_lower(s: &[u8]) -> (t: Vec<u8>)
    ensures
        t@ == lower(s@),
{
    let mut t: Vec<u8> = Vec::new();
    let mut i: usize = 0;
    while i < s.len()
        invariant
            i <= s@.len(),
            t@ == lower(s@.subrange(0, i as int)),
        decreases s@.len() - i,
    {
        let b = s[i];
        let l = if 0x41 <= b && b <= 0x5A { b + 0x20 } else { b };
        assert(lower(s@.subrange(0, i + 1)) =~= lower(s@.subrange(0, i as int)).push(l));
        t.push(l);
        i += 1;
    }
    assert(s@.subrange(0, s@.len() as int) =~= s@);
    t
}

/// Whether two byte strings are equal.
pub fn bytes_eq(a: &[u8], b: &[u8]) -> (r: bool)
    ensures
        r == (a@ == b@),
{
    if a.len() != b.len() {
        return false;
    }
    let mut i: usize = 0;
    while i < a.len()
        invariant
            a@.len() == b@.len(),
            i <= a@.len(),
            forall|j: int| 0 <= j < i ==> a@[j] == b@[j],
        decreases a@.len() - i,
    {
        if a[i] != b[i] {
            return false;
        }
        i += 1;
    }
    assert(a@ =~= b@);
    true
}

/// Whether `suffix` ends `s`.
pub fn ends_with(s: &[u8], suffix: &[u8]) -> (r: bool)
    ensures
        r == suffix@.is_suffix_of(s@),
{
    if suffix.len() > s.len() {
        return false;
    }
    let start = s.len() - suffix.len();
    let tail = vstd::slice::slice_subrange(s, start, s.len());
    bytes_eq(tail, suffix)
}

/// Whether one of `list` equals `s`.
pub fn contains_bytes(list: &Vec<Vec<u8>>, s: &[u8]) -> (r: bool)
    ensures
        r == exists|j: int| 0 <= j < list@.len() && (#[trigger] list@[j])@ == s@,
{
    let mut i: usize = 0;
    while i < list.len()
        invariant
            i <= list@.len(),
            forall|j: int| 0 <= j < i ==> (#[trigger] list@[j])@ != s@,
        decreases list@.len() - i,
    {
        if bytes_eq(list[i].as_slice(), s) {
            return true;
        }
        i += 1;
    }
    false
}

/// Appends the decimal digits of `n`.
pub fn push_decimal(out: &mut Vec<u8>, n: u16)
    ensures
        final(out)@ == old(out)@ + decimal(n as nat),
    decreases n,
{
    if n >= 10 {
        push_decimal(out, n / 10);
    }
    let d = (n % 10) as u8;
    out.push(0x30 + d);
    proof {
        if n >= 10 {
            assert(old(out)@ + decimal(n as nat) =~= old(out)@ + decimal((n / 10) as nat) + seq![(0x30 + d) as u8]);
        } else {
            assert(old(out)@ + decimal(n as nat) =~= old(out)@.push((0x30 + d) as u8));
        }
    }
}


pub proof fn lemma_trim_start_printable(s: Seq<u8>)
    requires
        all_printable(s),
    ensures
        all_printable(trim_start(s)),
    decreases s.len(),
{
    if s.len() > 0 && s[0] == 0x20 {
        assert forall|i: int| 0 <= i < s.drop_first().len() implies is_printable(#[trigger] s.drop_first()[i]) by {
            assert(s.drop_first()[i] == s[i + 1]);
        }
        lemma_trim_start_printable(s.drop_first());
    }
}

pub proof fn lemma_trim_end_printable(s: Seq<u8>)
    requires
        all_printable(s),
    ensures
        all_printable(trim_end(s)),
    decreases s.len(),
{
    if s.len() > 0 && s.last() == 0x20 {
        assert forall|i: int| 0 <= i < s.drop_last().len() implies is_printable(#[trigger] s.drop_last()[i]) by {
            assert(s.drop_last()[i] == s[i]);
        }
        lemma_trim_end_printable(s.drop_last());
    }
}

/// Trimming keeps a printable string printable.
pub proof fn lemma_trim_printable(s: Seq<u8>)
    requires
        all_printable(s),
    ensures
        all_printable(trim(s)),
{
    lemma_trim_start_printable(s);
    lemma_trim_end_printable(trim_start(s));
}

/// Decimal digits are printable, and there is at least one.
pub proof fn lemma_decimal_printable(n: nat)
    ensures
        all_printable(decimal(n)),
        decimal(n).len() >= 1,
    decreases n,
{
    if n >= 10 {
        lemma_decimal_printable(n / 10);
    }
}

pub proof fn lemma_printable_ascii(s: Seq<u8>)
    requires
        all_printable(s),
    ensures
        all_ascii(s),
{
    assert forall|i: int| 0 <= i < s.len() implies #[trigger] s[i] < 0x80 by {
        assert(is_printable(s[i]));
    }
}
/// Appends the decimal digits of `n`.
pub fn push_decimal_usize(out: &mut Vec<u8>, n: usize)
    ensures
        final(out)@ == old(out)@ + decimal(n as nat),
    decreases n,
{
    if n >= 10 {
        push_decimal_usize(out, n / 10);
    }
    let d = (n % 10) as u8;
    out.push(0x30 + d);
    proof {
        if n >= 10 {
            assert(old(out)@ + decimal(n as nat) =~= old(out)@ + decimal((n / 10) as nat) + seq![(0x30 + d) as u8]);
        } else {
            assert(old(out)@ + decimal(n as nat) =~= old(out)@.push((0x30 + d) as u8));
        }
    }
}

} // verus!
