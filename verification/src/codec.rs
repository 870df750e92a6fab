use vstd::prelude::*;
use vstd::arithmetic::div_mod::lemma_fundamental_div_mod_converse;
use vstd::string::StrSliceExecFns;
use vstd::string::StringExecFns;

verus! {

// Plain-text encodings used by the session tokens and the stored credentials:
// fixed-width decimal numbers and lower-case hex. Everything here is the
// crate's own logic, verified down to the character.

/// The value of a lower-case hex digit, and -1 for any other character.
pub open spec fn nibble_of(c: char) -> int {
    if c == '0' { 0 }
    else if c == '1' { 1 }
    else if c == '2' { 2 }
    else if c == '3' { 3 }
    else if c == '4' { 4 }
    else if c == '5' { 5 }
    else if c == '6' { 6 }
    else if c == '7' { 7 }
    else if c == '8' { 8 }
    else if c == '9' { 9 }
    else if c == 'a' { 10 }
    else if c == 'b' { 11 }
    else if c == 'c' { 12 }
    else if c == 'd' { 13 }
    else if c == 'e' { 14 }
    else if c == 'f' { 15 }
    else { -1 }
}

/// The lower-case hex digit for a value below 16.
pub open spec fn hex_char(d: int) -> char {
    if d == 0 { '0' }
    else if d == 1 { '1' }
    else if d == 2 { '2' }
    else if d == 3 { '3' }
    else if d == 4 { '4' }
    else if d == 5 { '5' }
    else if d == 6 { '6' }
    else if d == 7 { '7' }
    else if d == 8 { '8' }
    else if d == 9 { '9' }
    else if d == 10 { 'a' }
    else if d == 11 { 'b' }
    else if d == 12 { 'c' }
    else if d == 13 { 'd' }
    else if d == 14 { 'e' }
    else { 'f' }
}

pub open spec fn is_dec_digit(c: char) -> bool {
    0 <= nibble_of(c) <= 9
}

pub open spec fn is_hex_digit(c: char) -> bool {
    nibble_of(c) >= 0
}

/// The value of a sequence of decimal digits, most significant first.
pub open spec fn dec_val(s: Seq<char>) -> int
    decreases s.len(),
{
    if s.len() == 0 {
        0
    } else {
        dec_val(s.drop_last()) * 10 + nibble_of(s.last())
    }
}

pub open spec fn pow10(w: nat) -> int
    decreases w,
{
    if w == 0 {
        1
    } else {
        10 * pow10((w - 1) as nat)
    }
}

/// A number written with exactly `w` decimal digits (leading zeroes included).
pub open spec fn dec_fixed(n: int, w: nat) -> Seq<char>
    decreases w,
{
    if w == 0 {
        Seq::empty()
    } else {
        dec_fixed(n / 10, (w - 1) as nat).push(hex_char(n % 10))
    }
}

/// The lower-case hex encoding of a byte sequence, two digits per byte.
pub open spec fn hex_of(b: Seq<u8>) -> Seq<char>
    decreases b.len(),
{
    if b.len() == 0 {
        Seq::empty()
    } else {
        hex_of(b.drop_last()).push(hex_char(b.last() as int / 16)).push(
            hex_char(b.last() as int % 16),
        )
    }
}

pub proof fn lemma_pow10_pos(w: nat)
    ensures
        pow10(w) >= 1,
    decreases w,
{
    if w > 0 {
        lemma_pow10_pos((w - 1) as nat);
    }
}

/// Every value of a `u64` fits in twenty decimal digits.
pub proof fn lemma_pow10_20_exceeds_u64()
    ensures
        pow10(20) > u64::MAX,
{
    reveal_with_fuel(pow10, 21);
    assert(pow10(20) == 0x56bc75e2d63100000);
}

pub proof fn lemma_dec_fixed_shape(n: int, w: nat)
    requires
        n >= 0,
    ensures
        dec_fixed(n, w).len() == w,
        forall|i: int| 0 <= i < w ==> is_dec_digit(#[trigger] dec_fixed(n, w)[i]),
    decreases w,
{
    if w > 0 {
        lemma_dec_fixed_shape(n / 10, (w - 1) as nat);
        assert(0 <= n % 10 <= 9);
    }
}

pub proof fn lemma_dec_fixed_val(n: int, w: nat)
    requires
        0 <= n < pow10(w),
    ensures
        dec_val(dec_fixed(n, w)) == n,
    decreases w,
{
    if w == 0 {
    } else {
        let t = dec_fixed(n / 10, (w - 1) as nat);
        assert(dec_fixed(n, w) == t.push(hex_char(n % 10)));
        assert(dec_fixed(n, w).drop_last() =~= t);
        assert(n / 10 < pow10((w - 1) as nat)) by {
            lemma_pow10_pos((w - 1) as nat);
            assert(n < 10 * pow10((w - 1) as nat));
            assert(n / 10 < pow10((w - 1) as nat)) by (nonlinear_arith)
                requires
                    n >= 0,
                    pow10((w - 1) as nat) >= 1,
                    n < 10 * pow10((w - 1) as nat),
            ;
        }
        lemma_dec_fixed_val(n / 10, (w - 1) as nat);
        assert(0 <= n % 10 <= 9);
        assert(nibble_of(hex_char(n % 10)) == n % 10);
        assert(dec_val(dec_fixed(n, w)) == (n / 10) * 10 + n % 10);
        assert((n / 10) * 10 + n % 10 == n) by (nonlinear_arith)
            requires
                n >= 0,
        ;
    }
}

/// A digit string is the fixed-width encoding of its own value: writing the
/// value back with the same width gives back the same characters.
pub proof fn lemma_dec_canonical(s: Seq<char>)
    requires
        forall|i: int| 0 <= i < s.len() ==> is_dec_digit(#[trigger] s[i]),
    ensures
        0 <= dec_val(s) < pow10(s.len()),
        dec_fixed(dec_val(s), s.len()) == s,
    decreases s.len(),
{
    if s.len() == 0 {
        assert(dec_fixed(0, 0) =~= s);
    } else {
        let t = s.drop_last();
        assert(forall|i: int| 0 <= i < t.len() ==> is_dec_digit(#[trigger] t[i]));
        lemma_dec_canonical(t);
        let d = nibble_of(s.last());
        assert(is_dec_digit(s.last()));
        assert(0 <= d <= 9);
        let n = dec_val(s);
        assert(n == dec_val(t) * 10 + d);
        assert(0 <= n < pow10(s.len())) by (nonlinear_arith)
            requires
                n == dec_val(t) * 10 + d,
                0 <= d <= 9,
                0 <= dec_val(t) < pow10((s.len() - 1) as nat),
                pow10(s.len() as nat) == 10 * pow10((s.len() - 1) as nat),
        ;
        lemma_fundamental_div_mod_converse(n, 10, dec_val(t), d);
        assert(n / 10 == dec_val(t) && n % 10 == d);
        assert(hex_char(d) == s.last());
        assert(dec_fixed(n, s.len()) == dec_fixed(dec_val(t), t.len()).push(hex_char(d)));
        assert(dec_fixed(n, s.len()) =~= s);
    }
}

/// Two distinct byte sequences never share a hex encoding.
pub proof fn lemma_hex_of_len(b: Seq<u8>)
    ensures
        hex_of(b).len() == 2 * b.len(),
        forall|i: int| 0 <= i < hex_of(b).len() ==> is_hex_digit(#[trigger] hex_of(b)[i]),
    decreases b.len(),
{
    if b.len() > 0 {
        lemma_hex_of_len(b.drop_last());
        assert(0 <= b.last() as int / 16 <= 15);
        assert(0 <= b.last() as int % 16 <= 15);
    }
}

pub proof fn lemma_hex_of_injective(a: Seq<u8>, b: Seq<u8>)
    requires
        hex_of(a) == hex_of(b),
    ensures
        a == b,
    decreases a.len(),
{
    lemma_hex_of_len(a);
    lemma_hex_of_len(b);
    assert(a.len() == b.len());
    if a.len() == 0 {
        assert(a =~= b);
    } else {
        let xa = a.last() as int;
        let xb = b.last() as int;
        let p = hex_of(a.drop_last());
        let q = hex_of(b.drop_last());
        assert(hex_of(a) == p.push(hex_char(xa / 16)).push(hex_char(xa % 16)));
        assert(hex_of(b) == q.push(hex_char(xb / 16)).push(hex_char(xb % 16)));
        lemma_hex_of_len(a.drop_last());
        lemma_hex_of_len(b.drop_last());
        assert(p.len() == q.len());
        let m = p.len() as int;
        assert(p.push(hex_char(xa / 16)).push(hex_char(xa % 16))[m] == hex_char(xa / 16));
        assert(q.push(hex_char(xb / 16)).push(hex_char(xb % 16))[m] == hex_char(xb / 16));
        assert(p.push(hex_char(xa / 16)).push(hex_char(xa % 16))[m + 1] == hex_char(xa % 16));
        assert(q.push(hex_char(xb / 16)).push(hex_char(xb % 16))[m + 1] == hex_char(xb % 16));
        assert(hex_char(xa / 16) == hex_char(xb / 16));
        assert(hex_char(xa % 16) == hex_char(xb % 16));
        assert(0 <= xa / 16 <= 15 && 0 <= xb / 16 <= 15);
        assert(nibble_of(hex_char(xa / 16)) == xa / 16);
        assert(nibble_of(hex_char(xb / 16)) == xb / 16);
        assert(nibble_of(hex_char(xa % 16)) == xa % 16);
        assert(nibble_of(hex_char(xb % 16)) == xb % 16);
        assert(xa == xb) by {
            vstd::arithmetic::div_mod::lemma_fundamental_div_mod(xa, 16);
            vstd::arithmetic::div_mod::lemma_fundamental_div_mod(xb, 16);
        }
        assert forall|i: int| 0 <= i < m implies p[i] == q[i] by {
            assert(p.push(hex_char(xa / 16)).push(hex_char(xa % 16))[i] == p[i]);
            assert(q.push(hex_char(xb / 16)).push(hex_char(xb % 16))[i] == q[i]);
        }
        assert(p =~= q);
        lemma_hex_of_injective(a.drop_last(), b.drop_last());
        assert(a.last() == b.last());
        assert forall|i: int| 0 <= i < a.len() implies a[i] == b[i] by {
            if i < a.len() - 1 {
                assert(a.drop_last()[i] == a[i]);
                assert(b.drop_last()[i] == b[i]);
            } else {
                assert(a[i] == a.last() && b[i] == b.last());
            }
        }
        assert(a =~= b);
    }
}

/// The one-character string for a hex digit.
fn digit_str(d: u8) -> (r: &'static str)
    requires
        d < 16,
    ensures
        r@ =~= seq![hex_char(d as int)],
{
    proof {
        reveal_strlit("0");
        reveal_strlit("1");
        reveal_strlit("2");
        reveal_strlit("3");
        reveal_strlit("4");
        reveal_strlit("5");
        reveal_strlit("6");
        reveal_strlit("7");
        reveal_strlit("8");
        reveal_strlit("9");
        reveal_strlit("a");
        reveal_strlit("b");
        reveal_strlit("c");
        reveal_strlit("d");
        reveal_strlit("e");
        reveal_strlit("f");
    }
    match d {
        0 => "0",
        1 => "1",
        2 => "2",
        3 => "3",
        4 => "4",
        5 => "5",
        6 => "6",
        7 => "7",
        8 => "8",
        9 => "9",
        10 => "a",
        11 => "b",
        12 => "c",
        13 => "d",
        14 => "e",
        _ => "f",
    }
}

/// Writes `n` with exactly `w` decimal digits, leading zeroes included.
pub fn to_dec_fixed(n: u64, w: usize) -> (r: String)
    ensures
        r@ == dec_fixed(n as int, w as nat),
    decreases w,
{
    if w == 0 {
        String::new()
    } else {
        let mut s = to_dec_fixed(n / 10, w - 1);
        s.append(digit_str((n % 10) as u8));
        proof {
            assert(s@ =~= dec_fixed(n as int, w as nat));
        }
        s
    }
}

/// The value of a nibble character, or -1 when it is no hex digit.
fn nibble_val(c: char) -> (r: i32)
    ensures
        r as int == nibble_of(c),
{
    if c == '0' { 0 }
    else if c == '1' { 1 }
    else if c == '2' { 2 }
    else if c == '3' { 3 }
    else if c == '4' { 4 }
    else if c == '5' { 5 }
    else if c == '6' { 6 }
    else if c == '7' { 7 }
    else if c == '8' { 8 }
    else if c == '9' { 9 }
    else if c == 'a' { 10 }
    else if c == 'b' { 11 }
    else if c == 'c' { 12 }
    else if c == 'd' { 13 }
    else if c == 'e' { 14 }
    else if c == 'f' { 15 }
    else { -1 }
}

/// Reads a decimal digit string; `None` when a character is no digit or the
/// value does not fit in a `u64`.
pub fn parse_dec(s: &str) -> (r: Option<u64>)
    ensures
        r is Some <==> ((forall|i: int|
            0 <= i < s@.len() ==> is_dec_digit(#[trigger] s@[i])) && dec_val(s@) <= u64::MAX),
        r matches Some(v) ==> v as int == dec_val(s@),
{
    let n = s.unicode_len();
    let mut acc: u64 = 0;
    let mut i: usize = 0;
    proof {
        assert(s@.take(0) =~= Seq::<char>::empty());
    }
    while i < n
        invariant
            0 <= i <= n,
            n == s@.len(),
            forall|j: int| 0 <= j < i ==> is_dec_digit(#[trigger] s@[j]),
            acc as int == dec_val(s@.take(i as int)),
        decreases n - i,
    {
        let c = s.get_char(i);
        let d = nibble_val(c);
        if d < 0 || d > 9 {
            proof {
                assert(!is_dec_digit(s@[i as int]));
            }
            return None;
        }
        if acc > (u64::MAX - (d as u64)) / 10 {
            proof {
                assert(s@.take(i as int + 1).drop_last() =~= s@.take(i as int));
                assert(s@.take(i as int + 1).last() == s@[i as int]);
                assert(dec_val(s@.take(i as int + 1)) > u64::MAX) by (nonlinear_arith)
                    requires
                        dec_val(s@.take(i as int + 1)) == acc as int * 10 + nibble_of(
                            s@[i as int],
                        ),
                        acc as int > (u64::MAX - nibble_of(s@[i as int])) / 10,
                        0 <= nibble_of(s@[i as int]) <= 9,
                ;
                lemma_dec_val_prefix_grows(s@, i as int + 1);
            }
            return None;
        }
        proof {
            assert(s@.take(i as int + 1).drop_last() =~= s@.take(i as int));
            assert(s@.take(i as int + 1).last() == s@[i as int]);
            assert(acc as int * 10 + d as int <= u64::MAX) by (nonlinear_arith)
                requires
                    acc as int <= (u64::MAX - (d as int)) / 10,
                    0 <= d as int <= 9,
                    acc >= 0,
            ;
        }
        acc = acc * 10 + (d as u64);
        i = i + 1;
    }
    proof {
        assert(s@.take(n as int) =~= s@);
    }
    Some(acc)
}

/// If a text is all digits, its value only grows when more digits follow a
/// prefix.
proof fn lemma_dec_val_prefix_grows(s: Seq<char>, j: int)
    requires
        0 <= j <= s.len(),
        dec_val(s.take(j)) >= 0,
    ensures
        (forall|i: int| 0 <= i < s.len() ==> is_dec_digit(#[trigger] s[i])) ==> dec_val(s)
            >= dec_val(s.take(j)),
    decreases s.len() - j,
{
    if forall|i: int| 0 <= i < s.len() ==> is_dec_digit(#[trigger] s[i]) {
        if j == s.len() {
            assert(s.take(j) =~= s);
        } else {
            let p = s.take(j);
            let q = s.take(j + 1);
            assert(q.drop_last() =~= p);
            assert(q.last() == s[j]);
            assert(dec_val(q) == dec_val(p) * 10 + nibble_of(s[j]));
            assert(dec_val(q) >= dec_val(p)) by (nonlinear_arith)
                requires
                    dec_val(q) == dec_val(p) * 10 + nibble_of(s[j]),
                    dec_val(p) >= 0,
                    0 <= nibble_of(s[j]) <= 9,
            ;
            lemma_dec_val_prefix_grows(s, j + 1);
        }
    }
}

/// Writes bytes as lower-case hex, two digits per byte.
pub fn bytes_to_hex(b: &[u8]) -> (r: String)
    ensures
        r@ == hex_of(b@),
{
    let n = b.len();
    let mut s = String::new();
    let mut i: usize = 0;
    proof {
        assert(b@.take(0) =~= Seq::<u8>::empty());
    }
    while i < n
        invariant
            0 <= i <= n,
            n == b@.len(),
            s@ == hex_of(b@.take(i as int)),
        decreases n - i,
    {
        let x = b[i];
        s.append(digit_str(x / 16));
        s.append(digit_str(x % 16));
        proof {
            assert(b@.take(i as int + 1).drop_last() =~= b@.take(i as int));
            assert(b@.take(i as int + 1).last() == b@[i as int]);
            assert(s@ =~= hex_of(b@.take(i as int + 1)));
        }
        i = i + 1;
    }
    proof {
        assert(b@.take(n as int) =~= b@);
    }
    s
}

/// Character-wise equality of two texts.
pub fn str_eq(a: &str, b: &str) -> (r: bool)
    ensures
        r == (a@ == b@),
{
    let n = a.unicode_len();
    if n != b.unicode_len() {
        return false;
    }
    let mut i: usize = 0;
    while i < n
        invariant
            0 <= i <= n,
            n == a@.len(),
            n == b@.len(),
            forall|j: int| 0 <= j < i ==> a@[j] == b@[j],
        decreases n - i,
    {
        if a.get_char(i) != b.get_char(i) {
            return false;
        }
        i = i + 1;
    }
    proof {
        assert(a@ =~= b@);
    }
    true
}

/// Reads lower-case hex back into bytes; `None` when the length is odd or a
/// character is no hex digit.
pub fn hex_decode(s: &str) -> (r: Option<Vec<u8>>)
    ensures
        r is Some <==> (s@.len() % 2 == 0 && forall|i: int|
            0 <= i < s@.len() ==> is_hex_digit(#[trigger] s@[i])),
        r matches Some(v) ==> hex_of(v@) == s@,
{
    let n = s.unicode_len();
    if n % 2 != 0 {
        return None;
    }
    let mut out: Vec<u8> = Vec::new();
    let mut i: usize = 0;
    proof {
        assert(s@.take(0) =~= Seq::<char>::empty());
        assert(hex_of(out@) =~= s@.take(0));
    }
    while i < n
        invariant
            0 <= i <= n,
            i % 2 == 0,
            n % 2 == 0,
            n == s@.len(),
            out@.len() * 2 == i,
            hex_of(out@) == s@.take(i as int),
            forall|j: int| 0 <= j < i ==> is_hex_digit(#[trigger] s@[j]),
        decreases n - i,
    {
        let hi = nibble_val(s.get_char(i));
        if hi < 0 {
            proof {
                assert(!is_hex_digit(s@[i as int]));
            }
            return None;
        }
        let lo = nibble_val(s.get_char(i + 1));
        if lo < 0 {
            proof {
                assert(!is_hex_digit(s@[i as int + 1]));
            }
            return None;
        }
        let byte: u8 = (hi as u8) * 16 + (lo as u8);
        let ghost out0 = out@;
        out.push(byte);
        proof {
            assert(out@.drop_last() =~= out0);
            assert(out@.last() == byte);
            assert(byte as int / 16 == hi as int && byte as int % 16 == lo as int) by {
                lemma_fundamental_div_mod_converse(byte as int, 16, hi as int, lo as int);
            }
            assert(hex_char(nibble_of(s@[i as int])) == s@[i as int]);
            assert(hex_char(nibble_of(s@[i as int + 1])) == s@[i as int + 1]);
            assert(s@.take(i as int + 2).drop_last() =~= s@.take(i as int + 1));
            assert(s@.take(i as int + 1).drop_last() =~= s@.take(i as int));
            assert(hex_of(out@) =~= s@.take(i as int + 2));
        }
        i = i + 2;
    }
    proof {
        assert(s@.take(n as int) =~= s@);
    }
    Some(out)
}

} // verus!
