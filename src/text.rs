//! Text renderings of numbers and IP addresses.
use vstd::prelude::*;
use vstd::string::StringExecFns;

verus! {

/// The character of a digit value below sixteen (lower-case hex letters).
pub open spec fn digit_char(d: nat) -> char {
    if d == 0 { '0' } else if d == 1 { '1' } else if d == 2 { '2' } else if d == 3 { '3' }
    else if d == 4 { '4' } else if d == 5 { '5' } else if d == 6 { '6' } else if d == 7 { '7' }
    else if d == 8 { '8' } else if d == 9 { '9' } else if d == 10 { 'a' } else if d == 11 { 'b' }
    else if d == 12 { 'c' } else if d == 13 { 'd' } else if d == 14 { 'e' } else { 'f' }
}

/// Digits of `n` in the given base, most significant first, without leading zeros.
pub open spec fn digits(n: nat, base: nat) -> Seq<char>
    decreases n,
    via digits_decreases
{
    if base < 2 || n < base {
        seq![digit_char(n)]
    } else {
        digits(n / base, base).push(digit_char(n % base))
    }
}

#[via_fn]
proof fn digits_decreases(n: nat, base: nat) {
    if !(base < 2 || n < base) {
        assert(n / base < n) by (nonlinear_arith)
            requires
                base >= 2,
                n >= base,
        ;
    }
}

/// Decimal text of `n`.
pub open spec fn decimal(n: nat) -> Seq<char> {
    digits(n, 10)
}

/// Lower-case hexadecimal text of `n`, without leading zeros.
pub open spec fn hex(n: nat) -> Seq<char> {
    digits(n, 16)
}

fn digit_str(d: u64) -> (r: &'static str)
    requires
        d < 16,
    ensures
        r@ == seq![digit_char(d as nat)],
{
    if d == 0 { proof { reveal_strlit("0"); } "0" }
    else if d == 1 { proof { reveal_strlit("1"); } "1" }
    else if d == 2 { proof { reveal_strlit("2"); } "2" }
    else if d == 3 { proof { reveal_strlit("3"); } "3" }
    else if d == 4 { proof { reveal_strlit("4"); } "4" }
    else if d == 5 { proof { reveal_strlit("5"); } "5" }
    else if d == 6 { proof { reveal_strlit("6"); } "6" }
    else if d == 7 { proof { reveal_strlit("7"); } "7" }
    else if d == 8 { proof { reveal_strlit("8"); } "8" }
    else if d == 9 { proof { reveal_strlit("9"); } "9" }
    else if d == 10 { proof { reveal_strlit("a"); } "a" }
    else if d == 11 { proof { reveal_strlit("b"); } "b" }
    else if d == 12 { proof { reveal_strlit("c"); } "c" }
    else if d == 13 { proof { reveal_strlit("d"); } "d" }
    else if d == 14 { proof { reveal_strlit("e"); } "e" }
    else { proof { reveal_strlit("f"); } "f" }
}

/// Appends the digits of `n` in base `base` (10 or 16) to `s`.
pub fn push_digits(s: &mut String, n: u64, base: u64)
    requires
        base == 10 || base == 16,
    ensures
        final(s)@ == old(s)@ + digits(n as nat, base as nat),
    decreases n,
{
    if n >= base {
        push_digits(s, n / base, base);
    }
    s.append(digit_str(n % base));
    proof {
        if n >= base {
            assert(digits(n as nat, base as nat) =~= digits((n / base) as nat, base as nat).push(
                digit_char((n % base) as nat),
            ));
        }
    }
}

/// Appends the decimal text of `n` to `s`.
pub fn push_decimal(s: &mut String, n: u64)
    ensures
        final(s)@ == old(s)@ + decimal(n as nat),
{
    push_digits(s, n, 10);
}

/// Appends `t` to `s`.
pub fn push_str(s: &mut String, t: &str)
    ensures
        final(s)@ == old(s)@ + t@,
{
    s.append(t);
}

/// Dotted-decimal text of an IPv4 address, as in `93.184.216.34`.
pub open spec fn ipv4_text(a: Seq<u8>) -> Seq<char> {
    decimal(a[0] as nat) + seq!['.'] + decimal(a[1] as nat) + seq!['.'] + decimal(a[2] as nat)
        + seq!['.'] + decimal(a[3] as nat)
}

/// Renders an IPv4 address in dotted-decimal form.
pub fn ipv4_to_text(a: &[u8; 4]) -> (r: String)
    ensures
        r@ == ipv4_text(a@),
{
    let mut s = String::new();
    push_decimal(&mut s, a[0] as u64);
    push_dot(&mut s);
    push_decimal(&mut s, a[1] as u64);
    push_dot(&mut s);
    push_decimal(&mut s, a[2] as u64);
    push_dot(&mut s);
    push_decimal(&mut s, a[3] as u64);
    assert(s@ =~= ipv4_text(a@));
    s
}

fn push_dot(s: &mut String)
    ensures
        final(s)@ == old(s)@ + seq!['.'],
{
    proof { reveal_strlit("."); }
    s.append(".");
}

/// The 16-bit group `i` (0 to 7) of an IPv6 address given as sixteen bytes.
pub open spec fn group(a: Seq<u8>, i: int) -> nat {
    a[2 * i] as nat * 256 + a[2 * i + 1] as nat
}

/// The number of consecutive zero groups that start at group `i`.
pub open spec fn zero_run_at(a: Seq<u8>, i: int) -> nat
    decreases 8 - i,
{
    if i < 0 || i >= 8 || group(a, i) != 0 {
        0
    } else {
        1 + zero_run_at(a, i + 1)
    }
}

/// Among the groups before `n`, the first one at which a longest run of zero groups starts.
pub open spec fn longest_zero_start(a: Seq<u8>, n: int) -> int
    decreases n,
{
    if n <= 0 {
        0
    } else {
        let p = longest_zero_start(a, n - 1);
        if zero_run_at(a, n - 1) > zero_run_at(a, p) {
            n - 1
        } else {
            p
        }
    }
}

/// Groups `lo` up to `hi` (exclusive) in hex, separated by colons.
pub open spec fn groups_text(a: Seq<u8>, lo: int, hi: int) -> Seq<char>
    decreases hi - lo,
{
    if hi <= lo {
        seq![]
    } else if hi == lo + 1 {
        hex(group(a, lo))
    } else {
        groups_text(a, lo, hi - 1) + seq![':'] + hex(group(a, hi - 1))
    }
}

/// An IPv4-mapped IPv6 address: ten zero bytes, then two bytes `0xff`.
pub open spec fn is_ipv4_mapped(a: Seq<u8>) -> bool {
    &&& forall|i: int| 0 <= i < 10 ==> #[trigger] a[i] == 0
    &&& a[10] == 0xff
    &&& a[11] == 0xff
}

/// The text form of an IPv6 address: `::ffff:` and the dotted IPv4 text of
/// the last four bytes for an IPv4-mapped address; otherwise eight groups
/// in lower-case hex without leading zeros, with the first longest run of
/// two or more zero groups written as `::`.
pub open spec fn ipv6_text(a: Seq<u8>) -> Seq<char> {
    if is_ipv4_mapped(a) {
        seq![':', ':', 'f', 'f', 'f', 'f', ':'] + ipv4_text(a.subrange(12, 16))
    } else {
        ipv6_groups_text(a)
    }
}

/// Eight groups in lower-case hex without leading zeros, with the first
/// longest run of two or more zero groups written as `::`.
pub open spec fn ipv6_groups_text(a: Seq<u8>) -> Seq<char> {
    let s = longest_zero_start(a, 8);
    let l = zero_run_at(a, s);
    if l < 2 {
        groups_text(a, 0, 8)
    } else {
        groups_text(a, 0, s) + seq![':', ':'] + groups_text(a, s + l, 8)
    }
}

fn group_at(a: &[u8; 16], i: usize) -> (r: u64)
    requires
        i < 8,
    ensures
        r == group(a@, i as int),
{
    a[2 * i] as u64 * 256 + a[2 * i + 1] as u64
}

fn zero_run_len(a: &[u8; 16], i: usize) -> (r: usize)
    requires
        i <= 8,
    ensures
        r == zero_run_at(a@, i as int),
        i + r <= 8,
{
    let mut k: usize = i;
    while k < 8
        invariant
            i <= k <= 8,
            zero_run_at(a@, i as int) == (k - i) + zero_run_at(a@, k as int),
        ensures
            i <= k <= 8,
            zero_run_at(a@, i as int) == (k - i) + zero_run_at(a@, k as int),
            zero_run_at(a@, k as int) == 0,
        decreases 8 - k,
    {
        if group_at(a, k) != 0 {
            break;
        }
        k = k + 1;
    }
    k - i
}

fn push_groups(s: &mut String, a: &[u8; 16], lo: usize, hi: usize)
    requires
        lo <= hi <= 8,
    ensures
        final(s)@ == old(s)@ + groups_text(a@, lo as int, hi as int),
{
    let ghost start = s@;
    let mut k: usize = lo;
    while k < hi
        invariant
            lo <= k <= hi <= 8,
            s@ == start + groups_text(a@, lo as int, k as int),
        decreases hi - k,
    {
        if k > lo {
            push_colon(s);
        }
        push_digits(s, group_at(a, k), 16);
        k = k + 1;
        assert(s@ =~= start + groups_text(a@, lo as int, k as int));
    }
}

fn push_colon(s: &mut String)
    ensures
        final(s)@ == old(s)@ + seq![':'],
{
    proof { reveal_strlit(":"); }
    s.append(":");
}

/// Renders an IPv6 address in its compressed text form, with a dotted IPv4
/// tail where it is IPv4-mapped.
pub fn ipv6_to_text(a: &[u8; 16]) -> (r: String)
    ensures
        r@ == ipv6_text(a@),
{
    let mut k: usize = 0;
    let mut zeros = true;
    while k < 10
        invariant
            k <= 10,
            zeros == (forall|i: int| 0 <= i < k ==> #[trigger] a@[i] == 0),
        decreases 10 - k,
    {
        if a[k] != 0 {
            zeros = false;
        }
        k = k + 1;
    }
    if zeros && a[10] == 0xff && a[11] == 0xff {
        let tail: [u8; 4] = [a[12], a[13], a[14], a[15]];
        assert(tail@ =~= a@.subrange(12, 16));
        let mut s = String::new();
        proof { reveal_strlit("::ffff:"); }
        push_str(&mut s, "::ffff:");
        let t = ipv4_to_text(&tail);
        push_str(&mut s, t.as_str());
        s
    } else {
        ipv6_groups_to_text(a)
    }
}

fn ipv6_groups_to_text(a: &[u8; 16]) -> (r: String)
    ensures
        r@ == ipv6_groups_text(a@),
{
    let mut best: usize = 0;
    let mut best_len: usize = zero_run_len(a, 0);
    let mut i: usize = 1;
    assert(longest_zero_start(a@, 0) == 0);
    assert(longest_zero_start(a@, 1) == 0);
    while i < 8
        invariant
            1 <= i <= 8,
            best < i,
            best as int == longest_zero_start(a@, i as int),
            best_len == zero_run_at(a@, best as int),
            best + best_len <= 8,
        decreases 8 - i,
    {
        let l = zero_run_len(a, i);
        if l > best_len {
            best = i;
            best_len = l;
        }
        i = i + 1;
    }
    let mut s = String::new();
    if best_len < 2 {
        push_groups(&mut s, a, 0, 8);
    } else {
        push_groups(&mut s, a, 0, best);
        push_colon(&mut s);
        push_colon(&mut s);
        push_groups(&mut s, a, best + best_len, 8);
        assert(s@ =~= ipv6_groups_text(a@));
    }
    s
}

} // verus!
