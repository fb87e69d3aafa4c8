//! Fixed-width decimal and hexadecimal text, used by one-time codes and by
//! session tokens.
use vstd::prelude::*;

verus! {

/// The ASCII character of a decimal digit.
pub open spec fn digit_char(d: nat) -> char {
    ((d % 10) + 48) as char
}

/// Whether `c` is one of the ASCII digits `0` to `9`.
pub open spec fn is_digit(c: char) -> bool {
    '0' <= c && c <= '9'
}

/// The value of an ASCII digit.
pub open spec fn digit_value(c: char) -> nat {
    (c as nat - 48) as nat
}

/// The lowest `width` decimal digits of `n`, most significant first, padded with zeros.
pub open spec fn decimal_digits(n: nat, width: nat) -> Seq<char>
    decreases width,
{
    if width == 0 {
        Seq::empty()
    } else {
        decimal_digits(n / 10, (width - 1) as nat).push(digit_char(n % 10))
    }
}

/// The number that a string of ASCII digits denotes.
pub open spec fn decimal_value(s: Seq<char>) -> nat
    decreases s.len(),
{
    if s.len() == 0 {
        0
    } else {
        decimal_value(s.drop_last()) * 10 + digit_value(s.last())
    }
}

/// Whether every character of `s` is an ASCII digit.
pub open spec fn all_digits(s: Seq<char>) -> bool {
    forall|i: int| 0 <= i < s.len() ==> is_digit(#[trigger] s[i])
}

/// `10` to the power `k`.
pub open spec fn pow10(k: nat) -> nat
    decreases k,
{
    if k == 0 {
        1
    } else {
        10 * pow10((k - 1) as nat)
    }
}

/// The lower-case hexadecimal character of a nibble.
pub open spec fn hex_char(d: nat) -> char {
    if d < 10 {
        (d + 48) as char
    } else {
        ((d % 16) + 87) as char
    }
}

/// Two lower-case hexadecimal characters for each byte, high nibble first.
pub open spec fn hex_of(b: Seq<u8>) -> Seq<char>
    decreases b.len(),
{
    if b.len() == 0 {
        Seq::empty()
    } else {
        hex_of(b.drop_last()).push(hex_char(b.last() as nat / 16)).push(
            hex_char(b.last() as nat % 16),
        )
    }
}

pub proof fn lemma_decimal_digits_len(n: nat, width: nat)
    ensures
        decimal_digits(n, width).len() == width,
    decreases width,
{
    if width > 0 {
        lemma_decimal_digits_len(n / 10, (width - 1) as nat);
    }
}

pub proof fn lemma_decimal_digits_all_digits(n: nat, width: nat)
    ensures
        all_digits(decimal_digits(n, width)),
    decreases width,
{
    if width > 0 {
        lemma_decimal_digits_all_digits(n / 10, (width - 1) as nat);
        let s = decimal_digits(n, width);
        let p = decimal_digits(n / 10, (width - 1) as nat);
        assert forall|i: int| 0 <= i < s.len() implies is_digit(#[trigger] s[i]) by {
            if i < p.len() {
                assert(s[i] == p[i]);
            }
        }
    }
}

/// Reading back `width` digits of `n` gives `n` when it has at most `width` digits.
pub proof fn lemma_decimal_round_trip(n: nat, width: nat)
    requires
        n < pow10(width),
    ensures
        decimal_value(decimal_digits(n, width)) == n,
    decreases width,
{
    if width > 0 {
        let w1 = (width - 1) as nat;
        assert(n / 10 < pow10(w1)) by (nonlinear_arith)
            requires
                n < 10 * pow10(w1),
        ;
        lemma_decimal_round_trip(n / 10, w1);
        let s = decimal_digits(n, width);
        assert(s.drop_last() =~= decimal_digits(n / 10, w1));
        assert(n == (n / 10) * 10 + n % 10) by (nonlinear_arith);
    }
}

pub proof fn lemma_hex_of_len(b: Seq<u8>)
    ensures
        hex_of(b).len() == 2 * b.len(),
    decreases b.len(),
{
    if b.len() > 0 {
        lemma_hex_of_len(b.drop_last());
    }
}

/// Relies on `String::push`: the character is appended at the end.
#[verifier::external_body]
pub(crate) fn push_char(s: &mut String, c: char)
    ensures
        final(s)@ == old(s)@.push(c),
{
    s.push(c)
}

/// The `width` lowest decimal digits of `n`, zero-padded.
pub fn decimal_text(n: u128, width: usize) -> (r: String)
    ensures
        r@ == decimal_digits(n as nat, width as nat),
    decreases width,
{
    if width == 0 {
        String::new()
    } else {
        let mut r = decimal_text(n / 10, width - 1);
        let d: u8 = (n % 10) as u8;
        push_char(&mut r, (d + 48) as char);
        r
    }
}

/// The number that the first `len` characters of `s` denote, all of which are digits.
pub fn decimal_prefix_value(s: &str, len: usize) -> (r: u128)
    requires
        len <= s@.len(),
        len <= 20,
        all_digits(s@.subrange(0, len as int)),
    ensures
        r as nat == decimal_value(s@.subrange(0, len as int)),
{
    let mut v: u128 = 0;
    let mut i: usize = 0;
    while i < len
        invariant
            i <= len,
            len <= s@.len(),
            len <= 20,
            all_digits(s@.subrange(0, len as int)),
            v as nat == decimal_value(s@.subrange(0, i as int)),
            v < pow10(i as nat),
        decreases len - i,
    {
        let c = s.get_char(i);
        assert(s@.subrange(0, len as int)[i as int] == c);
        assert(s@.subrange(0, i as int + 1).drop_last() =~= s@.subrange(0, i as int));
        proof {
            reveal_with_fuel(pow10, 21);
            assert(pow10(i as nat) <= pow10(19));
            assert(pow10(19) == 10000000000000000000nat);
        }
        let d: u128 = (c as u32 - 48) as u128;
        assert(v * 10 + d < 10 * pow10(i as nat)) by (nonlinear_arith)
            requires
                v < pow10(i as nat),
                d < 10,
        ;
        v = v * 10 + d;
        i = i + 1;
    }
    v
}

/// Whether the first `len` characters of `s` are all ASCII digits.
pub fn digits_prefix(s: &str, len: usize) -> (r: bool)
    requires
        len <= s@.len(),
    ensures
        r == all_digits(s@.subrange(0, len as int)),
{
    let mut i: usize = 0;
    while i < len
        invariant
            i <= len,
            len <= s@.len(),
            all_digits(s@.subrange(0, i as int)),
        decreases len - i,
    {
        let c = s.get_char(i);
        if !('0' <= c && c <= '9') {
            assert(s@.subrange(0, len as int)[i as int] == c);
            return false;
        }
        assert forall|j: int| 0 <= j < i + 1 implies is_digit(
            #[trigger] s@.subrange(0, i as int + 1)[j],
        ) by {
            if j < i {
                assert(s@.subrange(0, i as int + 1)[j] == s@.subrange(0, i as int)[j]);
            }
        }
        i = i + 1;
    }
    true
}

/// Whether `a` and `b` are the same text. Every position of the shorter one is
/// compared, so the time taken does not tell where they first differ.
pub fn same_text(a: &str, b: &str) -> (r: bool)
    ensures
        r == (a@ == b@),
{
    let n = a.unicode_len();
    let m = b.unicode_len();
    let k: usize = if n < m {
        n
    } else {
        m
    };
    let mut differ: bool = n != m;
    let mut i: usize = 0;
    while i < k
        invariant
            n == a@.len(),
            m == b@.len(),
            k <= n,
            k <= m,
            i <= k,
            differ == (n != m || exists|j: int| 0 <= j < i && a@[j] != b@[j]),
        decreases k - i,
    {
        let x = a.get_char(i);
        let y = b.get_char(i);
        let here: bool = x != y;
        proof {
            if here {
                assert(a@[i as int] != b@[i as int]);
            }
            if !here {
                assert forall|j: int| 0 <= j < i + 1 && a@[j] != b@[j] implies 0 <= j < i by {}
            }
        }
        differ = differ || here;
        i = i + 1;
    }
    proof {
        if !differ {
            assert(a@ =~= b@);
        }
        if a@ == b@ {
            assert(n == m);
            assert forall|j: int| 0 <= j < k implies a@[j] == b@[j] by {}
        }
    }
    !differ
}

/// Lower-case hexadecimal text of `b`, two characters per byte.
pub fn hex_text(b: &Vec<u8>) -> (r: String)
    ensures
        r@ == hex_of(b@),
{
    let mut r = String::new();
    let mut i: usize = 0;
    while i < b.len()
        invariant
            i <= b@.len(),
            r@ == hex_of(b@.subrange(0, i as int)),
        decreases b@.len() - i,
    {
        let x = b[i];
        assert(b@.subrange(0, i as int + 1).drop_last() =~= b@.subrange(0, i as int));
        let hi: u8 = x / 16;
        let lo: u8 = x % 16;
        push_char(&mut r, hex_digit(hi));
        push_char(&mut r, hex_digit(lo));
        i = i + 1;
    }
    assert(b@.subrange(0, b@.len() as int) =~= b@);
    r
}

fn hex_digit(d: u8) -> (c: char)
    requires
        d < 16,
    ensures
        c == hex_char(d as nat),
{
    if d < 10 {
        (d + 48) as char
    } else {
        (d + 87) as char
    }
}

} // verus!
