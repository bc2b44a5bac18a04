//! The bit-string codec: one character per bit, most significant bit first,
//! `'C'` for a set bit and `'c'` for a clear one.
use vstd::arithmetic::div_mod::{lemma_div_denominator, lemma_fundamental_div_mod};
use vstd::prelude::*;

verus! {

/// `2^n`.
pub open spec fn pow2(n: nat) -> nat
    decreases n,
{
    if n == 0 {
        1
    } else {
        2 * pow2((n - 1) as nat)
    }
}

/// Whether bit `i` of `b` is set, counting from the most significant bit (`i == 0`).
pub open spec fn bit_set(b: u8, i: int) -> bool {
    (b as nat / pow2((7 - i) as nat)) % 2 == 1
}

/// The symbol that stands for one bit.
pub open spec fn symbol_for(bit: bool) -> char {
    if bit {
        'C'
    } else {
        'c'
    }
}

/// The bit-string of a byte sequence: character `p` stands for bit `p % 8` of byte `p / 8`.
pub open spec fn encode(bytes: Seq<u8>) -> Seq<char> {
    Seq::new(8 * bytes.len(), |p: int| symbol_for(bit_set(bytes[p / 8], p % 8)))
}

/// The bit read from position `p` of a bit-string: only `'C'` reads as a set bit,
/// and a position past the end reads as a clear bit.
pub open spec fn bit_value(s: Seq<char>, p: int) -> nat {
    if 0 <= p < s.len() && s[p] == 'C' {
        1
    } else {
        0
    }
}

/// The value of the `k` characters of `s` from `base` on, read as a binary number.
pub open spec fn chunk_value(s: Seq<char>, base: int, k: nat) -> nat
    decreases k,
{
    if k == 0 {
        0
    } else {
        2 * chunk_value(s, base, (k - 1) as nat) + bit_value(s, base + k - 1)
    }
}

/// The bytes read from a bit-string, eight characters to a byte; a last, shorter
/// run is read as if padded with clear bits.
pub open spec fn decode(s: Seq<char>) -> Seq<u8> {
    Seq::new(((s.len() + 7) / 8) as nat, |j: int| chunk_value(s, 8 * j, 8) as u8)
}

proof fn lemma_pow2_bounds()
    ensures
        pow2(0) == 1,
        pow2(1) == 2,
        pow2(2) == 4,
        pow2(3) == 8,
        pow2(4) == 16,
        pow2(5) == 32,
        pow2(6) == 64,
        pow2(7) == 128,
        pow2(8) == 256,
{
    reveal_with_fuel(pow2, 9);
}

proof fn lemma_chunk_value_bound(s: Seq<char>, base: int, k: nat)
    ensures
        chunk_value(s, base, k) < pow2(k),
    decreases k,
{
    if k > 0 {
        lemma_chunk_value_bound(s, base, (k - 1) as nat);
    }
}

/// Writes each byte as eight symbols, most significant bit first.
pub fn bytes_to_c_string(bytes: &[u8]) -> (r: String)
    ensures
        r@ == encode(bytes@),
{
    let mut out = String::new();
    let mut j: usize = 0;
    while j < bytes.len()
        invariant
            0 <= j <= bytes@.len(),
            out@ =~= encode(bytes@.subrange(0, j as int)),
        decreases bytes@.len() - j,
    {
        let b = bytes[j];
        let ghost start = out@;
        proof {
            lemma_pow2_bounds();
        }
        let mut d: u8 = 128;
        let mut i: usize = 0;
        while i < 8
            invariant
                0 <= i <= 8,
                i < 8 ==> d as nat == pow2((7 - i) as nat),
                out@.len() == start.len() + i,
                out@.subrange(0, start.len() as int) == start,
                forall|q: int| 0 <= q < i ==> out@[start.len() + q] == symbol_for(bit_set(b, q)),
            decreases 8 - i,
        {
            proof {
                reveal_strlit("C");
                reveal_strlit("c");
                lemma_pow2_bounds();
            }
            let bit = (b / d) % 2 == 1;
            assert(bit == bit_set(b, i as int));
            let ghost before = out@;
            if bit {
                out.append("C");
            } else {
                out.append("c");
            }
            assert(out@ == before.push(symbol_for(bit)));
            if i < 7 {
                assert(pow2((7 - i) as nat) == 2 * pow2((6 - i) as nat));
            }
            d = d / 2;
            i = i + 1;
        }
        proof {
            let next = bytes@.subrange(0, j + 1);
            assert forall|p: int| 0 <= p < 8 * next.len() implies out@[p] == symbol_for(
                bit_set(next[p / 8], p % 8),
            ) by {
                if p < 8 * j {
                    assert(out@[p] == start[p]);
                    assert(next[p / 8] == bytes@.subrange(0, j as int)[p / 8]);
                } else {
                    assert(p / 8 == j);
                    assert(out@[start.len() + (p - 8 * j)] == symbol_for(bit_set(b, p - 8 * j)));
                }
            }
            assert(out@ =~= encode(next));
        }
        j = j + 1;
    }
    assert(bytes@.subrange(0, bytes@.len() as int) == bytes@);
    out
}

/// Reads the bit-string back into bytes, eight characters to a byte, most
/// significant bit first; only `'C'` reads as a set bit.
pub fn c_string_to_bytes(c_string: &str) -> (r: Vec<u8>)
    ensures
        r@ == decode(c_string@),
{
    let n = c_string.unicode_len();
    let mut out: Vec<u8> = Vec::new();
    let mut rem: usize = n;
    while rem > 0
        invariant
            n == c_string@.len(),
            rem <= n,
            rem > 0 ==> n - rem == 8 * out@.len(),
            rem == 0 ==> n <= 8 * out@.len() < n + 8,
            forall|j: int| 0 <= j < out@.len() ==> out@[j] == chunk_value(c_string@, 8 * j, 8) as u8,
        decreases rem,
    {
        let base: usize = n - rem;
        let take: usize = if rem < 8 {
            rem
        } else {
            8
        };
        let mut acc: u8 = 0;
        let mut i: usize = 0;
        while i < 8
            invariant
                n == c_string@.len(),
                base + take <= n,
                take == (if rem < 8 { rem } else { 8 }),
                base == n - rem,
                0 <= i <= 8,
                acc as nat == chunk_value(c_string@, base as int, i as nat),
            decreases 8 - i,
        {
            proof {
                lemma_pow2_bounds();
                lemma_chunk_value_bound(c_string@, base as int, i as nat);
            }
            let high = i < take && c_string.get_char(base + i) == 'C';
            assert(high == (bit_value(c_string@, base + i) == 1));
            assert(pow2(i as nat) <= 128) by {
                lemma_pow2_monotone(i as nat, 7);
            }
            if high {
                acc = acc * 2 + 1;
            } else {
                acc = acc * 2;
            }
            i = i + 1;
        }
        proof {
            lemma_chunk_value_bound(c_string@, base as int, 8);
            lemma_pow2_bounds();
        }
        out.push(acc);
        rem = rem - take;
    }
    assert(out@ =~= decode(c_string@));
    out
}

proof fn lemma_pow2_monotone(a: nat, b: nat)
    requires
        a <= b,
    ensures
        pow2(a) <= pow2(b),
    decreases b,
{
    if a < b {
        lemma_pow2_monotone(a, (b - 1) as nat);
    }
}

proof fn lemma_chunk_of_encoded(bytes: Seq<u8>, j: int, k: nat)
    requires
        0 <= j < bytes.len(),
        k <= 8,
    ensures
        chunk_value(encode(bytes), 8 * j, k) == bytes[j] as nat / pow2((8 - k) as nat),
    decreases k,
{
    let x = bytes[j] as nat;
    if k == 0 {
        lemma_pow2_bounds();
        assert(x / 256 == 0);
    } else {
        lemma_chunk_of_encoded(bytes, j, (k - 1) as nat);
        let e = encode(bytes);
        let p = 8 * j + k - 1;
        assert(p / 8 == j && p % 8 == k - 1);
        let c = pow2((8 - k) as nat);
        assert(pow2((9 - k) as nat) == 2 * c);
        assert(c > 0) by {
            lemma_pow2_monotone(0, (8 - k) as nat);
        }
        lemma_div_denominator(x as int, c as int, 2);
        lemma_fundamental_div_mod((x / c) as int, 2);
        assert(bit_value(e, p) == (x / c) % 2);
    }
}

/// Reading back the bit-string of a byte sequence gives the same bytes.
pub proof fn lemma_round_trip(bytes: Seq<u8>)
    ensures
        decode(encode(bytes)) == bytes,
{
    let d = decode(encode(bytes));
    assert(d.len() == bytes.len());
    assert forall|j: int| 0 <= j < bytes.len() implies d[j] == bytes[j] by {
        lemma_chunk_of_encoded(bytes, j, 8);
        lemma_pow2_bounds();
        assert(bytes[j] as nat / 1 == bytes[j] as nat);
    }
    assert(d =~= bytes);
}

} // verus!
