use vstd::prelude::*;

verus! {

/// Chips in one C/A code period.
pub const CA_SEQ_LEN: usize = 1023;

/// Number of PRNs with a C/A code.
pub const CA_PRNS: usize = 32;

/// Bit `n` of the G1 sequence: the shift register with polynomial
/// 1 + X^3 + X^10, all ones at start.
pub open spec fn g1_bit(n: int) -> u8
    decreases n,
{
    if n < 10 {
        1
    } else {
        g1_bit(n - 3) ^ g1_bit(n - 10)
    }
}

/// Bit `n` of the G2 sequence: the shift register with polynomial
/// 1 + X^2 + X^3 + X^6 + X^8 + X^9 + X^10, all ones at start.
pub open spec fn g2_bit(n: int) -> u8
    decreases n,
{
    if n < 10 {
        1
    } else {
        g2_bit(n - 2) ^ g2_bit(n - 3) ^ g2_bit(n - 6) ^ g2_bit(n - 8) ^ g2_bit(n - 9) ^ g2_bit(n - 10)
    }
}

/// The G2 delay, in chips, of PRN `prn` (1 to 32).
pub open spec fn g2_delay(prn: int) -> int {
    if prn == 1 { 5 } else if prn == 2 { 6 } else if prn == 3 { 7 } else if prn == 4 { 8 }
    else if prn == 5 { 17 } else if prn == 6 { 18 } else if prn == 7 { 139 } else if prn == 8 { 140 }
    else if prn == 9 { 141 } else if prn == 10 { 251 } else if prn == 11 { 252 } else if prn == 12 { 254 }
    else if prn == 13 { 255 } else if prn == 14 { 256 } else if prn == 15 { 257 } else if prn == 16 { 258 }
    else if prn == 17 { 469 } else if prn == 18 { 470 } else if prn == 19 { 471 } else if prn == 20 { 472 }
    else if prn == 21 { 473 } else if prn == 22 { 474 } else if prn == 23 { 509 } else if prn == 24 { 512 }
    else if prn == 25 { 513 } else if prn == 26 { 514 } else if prn == 27 { 515 } else if prn == 28 { 516 }
    else if prn == 29 { 859 } else if prn == 30 { 860 } else if prn == 31 { 861 } else { 862 }
}

/// Chip `i` of the C/A code of `prn` as a bit: G1 exclusive-or G2 delayed.
pub open spec fn ca_bit(prn: int, i: int) -> u8 {
    g1_bit(i) ^ g2_bit((i + CA_SEQ_LEN - g2_delay(prn)) % (CA_SEQ_LEN as int))
}

fn g2_delay_of(prn: usize) -> (r: usize)
    requires
        1 <= prn <= CA_PRNS,
    ensures
        r == g2_delay(prn as int),
        1 <= r < CA_SEQ_LEN,
{
    let t: [usize; 32] = [
        5, 6, 7, 8, 17, 18, 139, 140, 141, 251, 252, 254, 255, 256, 257, 258, 469, 470, 471, 472, 473,
        474, 509, 512, 513, 514, 515, 516, 859, 860, 861, 862,
    ];
    t[prn - 1]
}

/// The first `CA_SEQ_LEN` bits of the G1 or the G2 sequence.
fn register_sequence(second: bool) -> (r: Vec<u8>)
    ensures
        r@.len() == CA_SEQ_LEN,
        forall|n: int| 0 <= n < CA_SEQ_LEN ==> r@[n] == if second { g2_bit(n) } else { g1_bit(n) },
{
    let mut r: Vec<u8> = Vec::new();
    let mut n: usize = 0;
    while n < CA_SEQ_LEN
        invariant
            n <= CA_SEQ_LEN,
            r@.len() == n,
            forall|m: int| 0 <= m < n ==> r@[m] == if second { g2_bit(m) } else { g1_bit(m) },
        decreases CA_SEQ_LEN - n,
    {
        let b: u8 = if n < 10 {
            1
        } else if second {
            r[n - 2] ^ r[n - 3] ^ r[n - 6] ^ r[n - 8] ^ r[n - 9] ^ r[n - 10]
        } else {
            r[n - 3] ^ r[n - 10]
        };
        r.push(b);
        n = n + 1;
    }
    r
}

/// The C/A code of `prn` as chips of +1 (bit 1) and -1 (bit 0).
pub fn codegen(prn: usize) -> (r: Vec<i8>)
    requires
        1 <= prn <= CA_PRNS,
    ensures
        r@.len() == CA_SEQ_LEN,
        forall|i: int| 0 <= i < CA_SEQ_LEN ==> #[trigger] r@[i] == 2 * ca_bit(prn as int, i) - 1,
{
    let g1 = register_sequence(false);
    let g2 = register_sequence(true);
    let delay = g2_delay_of(prn);
    let mut r: Vec<i8> = Vec::new();
    let mut i: usize = 0;
    while i < CA_SEQ_LEN
        invariant
            i <= CA_SEQ_LEN,
            r@.len() == i,
            1 <= delay < CA_SEQ_LEN,
            delay == g2_delay(prn as int),
            g1@.len() == CA_SEQ_LEN,
            g2@.len() == CA_SEQ_LEN,
            forall|n: int| 0 <= n < CA_SEQ_LEN ==> g1@[n] == g1_bit(n),
            forall|n: int| 0 <= n < CA_SEQ_LEN ==> g2@[n] == g2_bit(n),
            forall|m: int| 0 <= m < i ==> #[trigger] r@[m] == 2 * ca_bit(prn as int, m) - 1,
        decreases CA_SEQ_LEN - i,
    {
        let j = (i + CA_SEQ_LEN - delay) % CA_SEQ_LEN;
        let bit = g1[i] ^ g2[j];
        proof {
            lemma_bits_are_bits(i as int, j as int);
        }
        r.push(if bit == 1 { 1i8 } else { -1i8 });
        i = i + 1;
    }
    r
}

proof fn lemma_bits_are_bits(i: int, j: int)
    ensures
        g1_bit(i) <= 1,
        g2_bit(j) <= 1,
        (g1_bit(i) ^ g2_bit(j)) <= 1,
    decreases i + j,
{
    lemma_g1_bit(i);
    lemma_g2_bit(j);
    let a = g1_bit(i);
    let b = g2_bit(j);
    assert(a ^ b <= 1) by (bit_vector)
        requires
            a <= 1,
            b <= 1,
    ;
}

proof fn lemma_g1_bit(n: int)
    ensures
        g1_bit(n) <= 1,
    decreases n,
{
    if n >= 10 {
        lemma_g1_bit(n - 3);
        lemma_g1_bit(n - 10);
        let a = g1_bit(n - 3);
        let b = g1_bit(n - 10);
        assert(a ^ b <= 1) by (bit_vector)
            requires
                a <= 1,
                b <= 1,
        ;
    }
}

proof fn lemma_g2_bit(n: int)
    ensures
        g2_bit(n) <= 1,
    decreases n,
{
    if n >= 10 {
        lemma_g2_bit(n - 2);
        lemma_g2_bit(n - 3);
        lemma_g2_bit(n - 6);
        lemma_g2_bit(n - 8);
        lemma_g2_bit(n - 9);
        lemma_g2_bit(n - 10);
        let a = g2_bit(n - 2);
        let b = g2_bit(n - 3);
        let c = g2_bit(n - 6);
        let d = g2_bit(n - 8);
        let e = g2_bit(n - 9);
        let f = g2_bit(n - 10);
        assert(a ^ b ^ c ^ d ^ e ^ f <= 1) by (bit_vector)
            requires
                a <= 1,
                b <= 1,
                c <= 1,
                d <= 1,
                e <= 1,
                f <= 1,
        ;
    }
}

} // verus!
