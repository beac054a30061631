//! Byte-level helpers shared by the serializer and the parser: the control
//! bytes of the HTTP wire format, first-occurrence search, and decimal
//! rendering of lengths and status codes.

use vstd::prelude::*;

verus! {

pub const CR: u8 = 13;
pub const LF: u8 = 10;
pub const SP: u8 = 32;
pub const COLON: u8 = 58;

/// Index of the first occurrence of `b` in `s`, or -1 when `b` does not occur.
pub open spec fn find_byte(s: Seq<u8>, b: u8) -> int
    decreases s.len(),
{
    if s.len() == 0 {
        -1
    } else if s[0] == b {
        0
    } else if find_byte(s.skip(1), b) == -1 {
        -1
    } else {
        find_byte(s.skip(1), b) + 1
    }
}

pub proof fn lemma_find_byte(s: Seq<u8>, b: u8)
    ensures
        find_byte(s, b) == -1 ==> forall|j: int| 0 <= j < s.len() ==> s[j] != b,
        find_byte(s, b) != -1 ==> 0 <= find_byte(s, b) < s.len() && s[find_byte(s, b)] == b
            && forall|j: int| 0 <= j < find_byte(s, b) ==> s[j] != b,
    decreases s.len(),
{
    if s.len() == 0 {
    } else if s[0] == b {
    } else {
        lemma_find_byte(s.skip(1), b);
        assert forall|j: int| 1 <= j < s.len() implies s[j] == s.skip(1)[j - 1] by {}
    }
}

pub proof fn lemma_find_byte_at(s: Seq<u8>, b: u8, i: int)
    requires
        0 <= i < s.len(),
        s[i] == b,
        forall|j: int| 0 <= j < i ==> s[j] != b,
    ensures
        find_byte(s, b) == i,
{
    lemma_find_byte(s, b);
    let k = find_byte(s, b);
    if k == -1 {
        assert(s[i] != b);
    } else if k < i {
        assert(s[k] != b);
    } else if k > i {
        assert(s[i] != b);
    }
}

pub proof fn lemma_find_byte_none(s: Seq<u8>, b: u8)
    requires
        forall|j: int| 0 <= j < s.len() ==> s[j] != b,
    ensures
        find_byte(s, b) == -1,
{
    lemma_find_byte(s, b);
    let k = find_byte(s, b);
    if k != -1 {
        assert(s[k] != b);
    }
}

/// First occurrence of `b` in `s` at or after `from`.
pub fn find_byte_from(s: &[u8], from: usize, b: u8) -> (r: Option<usize>)
    requires
        from <= s@.len(),
    ensures
        match r {
            Some(i) => from <= i < s@.len() && from + find_byte(s@.skip(from as int), b) == i,
            None => find_byte(s@.skip(from as int), b) == -1,
        },
{
    let mut i: usize = from;
    while i < s.len()
        invariant
            from <= i <= s@.len(),
            forall|j: int| from <= j < i ==> s@[j] != b,
        decreases s@.len() - i,
    {
        if s[i] == b {
            proof {
                assert forall|j: int| 0 <= j < i - from implies s@.skip(from as int)[j] != b by {}
                lemma_find_byte_at(s@.skip(from as int), b, i - from);
            }
            return Some(i);
        }
        i += 1;
    }
    proof {
        assert forall|j: int| 0 <= j < s@.skip(from as int).len() implies s@.skip(from as int)[j]
            != b by {}
        lemma_find_byte_none(s@.skip(from as int), b);
    }
    None
}

/// True exactly when the two byte strings hold the same bytes.
pub fn eq_bytes(a: &[u8], b: &[u8]) -> (r: bool)
    ensures
        r == (a@ == b@),
{
    if a.len() != b.len() {
        return false;
    }
    let mut i: usize = 0;
    while i < a.len()
        invariant
            i <= a@.len(),
            a@.len() == b@.len(),
            forall|j: int| 0 <= j < i ==> a@[j] == b@[j],
        decreases a@.len() - i,
    {
        if a[i] != b[i] {
            return false;
        }
        i += 1;
    }
    proof {
        assert(a@ =~= b@);
    }
    true
}

/// Appends every byte of `src` to `out`, in order.
pub fn push_bytes(out: &mut Vec<u8>, src: &[u8])
    ensures
        final(out)@ == old(out)@ + src@,
{
    let mut i: usize = 0;
    while i < src.len()
        invariant
            i <= src@.len(),
            out@ == old(out)@ + src@.take(i as int),
        decreases src@.len() - i,
    {
        out.push(src[i]);
        proof {
            assert(old(out)@ + src@.take(i + 1) =~= (old(out)@ + src@.take(i as int)).push(
                src@[i as int],
            ));
        }
        i += 1;
    }
    proof {
        assert(src@.take(src@.len() as int) =~= src@);
    }
}

/// Appends the two-byte line terminator of the HTTP wire format.
pub fn write_crlf(target: &mut Vec<u8>)
    ensures
        final(target)@ == old(target)@ + seq![CR, LF],
{
    target.push(CR);
    target.push(LF);
    proof {
        assert(old(target)@.push(CR).push(LF) =~= old(target)@ + seq![CR, LF]);
    }
}

/// Decimal digits of `n`, most significant first, without leading zeros
/// (a single zero digit for zero).
pub open spec fn dec_bytes(n: nat) -> Seq<u8>
    decreases n,
{
    if n < 10 {
        seq![(48 + n) as u8]
    } else {
        dec_bytes(n / 10).push((48 + n % 10) as u8)
    }
}

/// Renders `n` in decimal.
pub fn dec_of(n: u64) -> (out: Vec<u8>)
    ensures
        out@ == dec_bytes(n as nat),
    decreases n,
{
    if n < 10 {
        let mut v: Vec<u8> = Vec::new();
        v.push(48 + n as u8);
        proof {
            assert(v@ =~= dec_bytes(n as nat));
        }
        v
    } else {
        let mut v = dec_of(n / 10);
        v.push(48 + (n % 10) as u8);
        v
    }
}


pub open spec fn all_digits(s: Seq<u8>) -> bool {
    forall|i: int| 0 <= i < s.len() ==> 48 <= #[trigger] s[i] <= 57
}

/// Value of a decimal digit string.
pub open spec fn dec_val(s: Seq<u8>) -> nat
    decreases s.len(),
{
    if s.len() == 0 {
        0
    } else {
        (dec_val(s.take(s.len() - 1)) * 10 + (s.last() - 48)) as nat
    }
}

pub open spec fn pow10(n: nat) -> nat
    decreases n,
{
    if n == 0 {
        1
    } else {
        10 * pow10((n - 1) as nat)
    }
}

pub proof fn lemma_dec_val_bound(s: Seq<u8>)
    requires
        all_digits(s),
    ensures
        dec_val(s) < pow10(s.len()),
    decreases s.len(),
{
    if s.len() > 0 {
        let pre = s.take(s.len() - 1);
        assert forall|i: int| 0 <= i < pre.len() implies 48 <= #[trigger] pre[i] <= 57 by {
            assert(pre[i] == s[i]);
        }
        lemma_dec_val_bound(pre);
        assert(s.last() <= 57);
    }
}

pub proof fn lemma_pow10_pos(n: nat)
    ensures
        pow10(n) >= 1,
    decreases n,
{
    if n > 0 {
        lemma_pow10_pos((n - 1) as nat);
    }
}

pub proof fn lemma_pow10_le(a: nat, b: nat)
    requires
        a <= b,
    ensures
        pow10(a) <= pow10(b),
    decreases b,
{
    if a < b {
        lemma_pow10_le(a, (b - 1) as nat);
        lemma_pow10_pos((b - 1) as nat);
    }
}

/// `dec_bytes` produces digits only.
pub proof fn lemma_dec_bytes_digits(n: nat)
    ensures
        all_digits(dec_bytes(n)),
        dec_bytes(n).len() > 0,
    decreases n,
{
    if n < 10 {
    } else {
        lemma_dec_bytes_digits(n / 10);
        let s = dec_bytes(n);
        let pre = dec_bytes(n / 10);
        assert forall|i: int| 0 <= i < s.len() implies 48 <= #[trigger] s[i] <= 57 by {
            if i < pre.len() {
                assert(s[i] == pre[i]);
            } else {
                assert(s[i] == (48 + n % 10) as u8);
            }
        }
    }
}

/// Reading the rendered digits of `n` gives `n` back.
pub proof fn lemma_dec_round_trip(n: nat)
    ensures
        dec_val(dec_bytes(n)) == n,
    decreases n,
{
    if n < 10 {
        let s = dec_bytes(n);
        assert(s.take(s.len() - 1) =~= Seq::<u8>::empty());
        assert(dec_val(Seq::<u8>::empty()) == 0);
        assert(s.last() == (48 + n) as u8);
        assert(dec_val(s) == 0 * 10 + ((48 + n) as u8 - 48));
    } else {
        lemma_dec_round_trip(n / 10);
        let s = dec_bytes(n);
        let pre = dec_bytes(n / 10);
        assert(s.len() == pre.len() + 1);
        assert(s.take(s.len() - 1) =~= pre);
        assert(s.last() == (48 + n % 10) as u8);
        assert(dec_val(s) == dec_val(pre) * 10 + ((48 + n % 10) as u8 - 48));
        assert((48 + n % 10) as u8 == 48 + n % 10);
        assert(dec_val(s) == (n / 10) * 10 + n % 10);
    }
}

/// A number below the `k`-th power of ten renders in at most `k` digits.
pub proof fn lemma_dec_bytes_len(n: nat, k: nat)
    requires
        1 <= k,
        n < pow10(k),
    ensures
        dec_bytes(n).len() <= k,
    decreases n,
{
    if n < 10 {
    } else {
        if k < 2 {
            assert(pow10(1) == 10 * pow10(0));
            assert(false);
        }
        assert(pow10(k) == 10 * pow10((k - 1) as nat));
        lemma_dec_bytes_len(n / 10, (k - 1) as nat);
    }
}

/// Reads a decimal of at most twenty digits.
#[verifier::loop_isolation(false)]
pub fn parse_decimal(digits: &[u8]) -> (r: Option<u128>)
    ensures
        match r {
            Some(v) => 0 < digits@.len() <= 20 && all_digits(digits@) && v == dec_val(digits@),
            None => !(0 < digits@.len() <= 20) || !all_digits(digits@),
        },
{
    if digits.len() == 0 || digits.len() > 20 {
        return None;
    }
    let mut acc: u128 = 0;
    let mut i: usize = 0;
    proof {
        assert(digits@.take(0) =~= Seq::<u8>::empty());
    }
    while i < digits.len()
        invariant
            i <= digits@.len(),
            digits@.len() <= 20,
            all_digits(digits@.take(i as int)),
            acc == dec_val(digits@.take(i as int)),
            acc < pow10(i as nat),
        decreases digits@.len() - i,
    {
        let d = digits[i];
        if d < 48 || d > 57 {
            proof {
                assert(!(48 <= digits@[i as int] <= 57));
            }
            return None;
        }
        proof {
            reveal_with_fuel(pow10, 22);
            lemma_pow10_le(i as nat, 19);
            assert(pow10(19) == 10_000_000_000_000_000_000);
            let pre = digits@.take(i as int);
            let cur = digits@.take(i as int + 1);
            assert(cur.len() == i as int + 1);
            assert(cur.take(cur.len() - 1) =~= pre);
            assert(cur[i as int] == digits@[i as int]);
            assert(cur.last() == digits@[i as int]);
            assert forall|j: int| 0 <= j < cur.len() implies 48 <= #[trigger] cur[j] <= 57 by {
                if j < i as int {
                    assert(cur[j] == pre[j]);
                } else {
                    assert(cur[j] == digits@[i as int]);
                }
            }
            lemma_dec_val_bound(cur);
            lemma_pow10_le(i as nat + 1, 20);
            assert(pow10(20) == 100_000_000_000_000_000_000);
        }
        acc = acc * 10 + (d - 48) as u128;
        i += 1;
    }
    proof {
        assert(digits@.take(digits@.len() as int) =~= digits@);
    }
    Some(acc)
}

} // verus!

