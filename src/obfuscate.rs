//! Dresses a bit-string up as a domain-like token: a dotted prefix cut from fixed
//! windows, and separators laid over clear bits at positions drawn from a keystream.
use crate::codec::{decode, encode, lemma_round_trip};
use vstd::arithmetic::div_mod::{lemma_add_mod_noop, lemma_mod_add_multiples_vanish, lemma_small_mod};
use vstd::prelude::*;

verus! {

/// How many keystream bytes pick separator positions.
pub const KEYSTREAM_LEN: usize = 16;

/// The character laid over a clear bit.
pub open spec fn is_separator(c: char) -> bool {
    c == '.'
}

/// The sum of the first `k` keystream bytes.
pub open spec fn stream_sum(stream: Seq<u8>, k: int) -> nat
    decreases k,
{
    if k <= 0 || k > stream.len() {
        0
    } else {
        stream_sum(stream, k - 1) + stream[k - 1] as nat
    }
}

/// How many keystream bytes are used: the first sixteen, or all where fewer.
pub open spec fn keystream_count(stream: Seq<u8>) -> int {
    if stream.len() < KEYSTREAM_LEN {
        stream.len() as int
    } else {
        KEYSTREAM_LEN as int
    }
}

/// The `i`-th visited position: the running sum of the keystream modulo the length.
pub open spec fn visited(stream: Seq<u8>, n: int, i: int) -> int {
    stream_sum(stream, i + 1) as int % n
}

/// Whether the walk over the keystream visits position `p` of a string of length `n`.
pub open spec fn is_visited(stream: Seq<u8>, n: int, p: int) -> bool {
    exists|i: int| 0 <= i < keystream_count(stream) && #[trigger] visited(stream, n, i) == p
}

/// The bit-string with each visited clear-bit symbol turned into a separator.
pub open spec fn obfuscated(bits: Seq<char>, stream: Seq<u8>) -> Seq<char> {
    Seq::new(
        bits.len(),
        |p: int|
            if bits[p] == 'c' && is_visited(stream, bits.len() as int, p) {
                '.'
            } else {
                bits[p]
            },
    )
}

/// Each separator read back as the clear-bit symbol it stands over.
pub open spec fn stripped(s: Seq<char>) -> Seq<char> {
    Seq::new(s.len(), |p: int| if is_separator(s[p]) { 'c' } else { s[p] })
}

/// The dotted "domain" of a bit-string: characters `30..70`, a dot, characters `20..22`.
pub open spec fn domain_of(bits: Seq<char>) -> Seq<char> {
    bits.subrange(30, 70) + seq!['.'] + bits.subrange(20, 22)
}

/// Lays separators over the clear-bit symbols of `bits` at the positions that the
/// running sum of the first sixteen bytes of `stream` visits, modulo the length.
pub fn obfuscate(bits: &str, stream: &[u8]) -> (r: String)
    requires
        bits@.len() > 0,
    ensures
        r@ == obfuscated(bits@, stream@),
{
    let n = bits.unicode_len();
    let count: usize = if stream.len() < KEYSTREAM_LEN {
        stream.len()
    } else {
        KEYSTREAM_LEN
    };
    let mut marks: Vec<bool> = vec![false; n];
    let mut counter: usize = 0;
    let mut i: usize = 0;
    proof {
        lemma_small_mod(0, n as nat);
    }
    while i < count
        invariant
            n == bits@.len(),
            n > 0,
            count == keystream_count(stream@),
            i <= count,
            counter as int == stream_sum(stream@, i as int) as int % n as int,
            marks@.len() == n,
            forall|p: int|
                0 <= p < n ==> (marks@[p] <==> exists|k: int|
                    0 <= k < i && #[trigger] visited(stream@, n as int, k) == p),
        decreases count - i,
    {
        let b: usize = stream[i] as usize % n;
        let ghost prev = counter as int;
        let ghost sum = stream_sum(stream@, i as int) as int;
        counter = if counter >= n - b {
            counter - (n - b)
        } else {
            counter + b
        };
        proof {
            let x = stream@[i as int] as int;
            assert(stream_sum(stream@, i + 1) == sum + x);
            lemma_add_mod_noop(sum, x, n as int);
            lemma_small_mod(prev as nat, n as nat);
            if prev + b >= n {
                lemma_small_mod((prev + b - n) as nat, n as nat);
                lemma_mod_add_multiples_vanish(prev + b - n, n as int);
            } else {
                lemma_small_mod((prev + b) as nat, n as nat);
            }
            assert(counter as int == visited(stream@, n as int, i as int));
        }
        marks.set(counter, true);
        proof {
            assert forall|p: int| 0 <= p < n implies (marks@[p] <==> exists|k: int|
                0 <= k < i + 1 && #[trigger] visited(stream@, n as int, k) == p) by {
                if p == counter {
                    assert(visited(stream@, n as int, i as int) == p);
                }
                if exists|k: int| 0 <= k < i + 1 && #[trigger] visited(stream@, n as int, k) == p {
                    let k = choose|k: int| 0 <= k < i + 1 && #[trigger] visited(stream@, n as int, k) == p;
                    if k < i {
                        assert(marks@[p]);
                    }
                }
            }
        }
        i = i + 1;
    }
    let mut out = String::new();
    let mut p: usize = 0;
    while p < n
        invariant
            n == bits@.len(),
            marks@.len() == n,
            forall|q: int| 0 <= q < n ==> (marks@[q] <==> is_visited(stream@, n as int, q)),
            p <= n,
            out@ =~= obfuscated(bits@, stream@).subrange(0, p as int),
        decreases n - p,
    {
        proof {
            reveal_strlit(".");
        }
        let c = bits.get_char(p);
        if c == 'c' && marks[p] {
            out.append(".");
        } else {
            out.append(bits.substring_char(p, p + 1));
        }
        p = p + 1;
    }
    out
}

/// Reads every separator back as the clear-bit symbol it stands over.
pub fn strip_separators(token: &str) -> (r: String)
    ensures
        r@ == stripped(token@),
{
    let n = token.unicode_len();
    let mut out = String::new();
    let mut p: usize = 0;
    while p < n
        invariant
            n == token@.len(),
            p <= n,
            out@ =~= stripped(token@).subrange(0, p as int),
        decreases n - p,
    {
        proof {
            reveal_strlit("c");
        }
        if token.get_char(p) == '.' {
            out.append("c");
        } else {
            out.append(token.substring_char(p, p + 1));
        }
        p = p + 1;
    }
    out
}

/// The dotted "domain" cut from fixed windows of the bit-string.
pub fn domain_prefix(bits: &str) -> (r: String)
    requires
        bits@.len() >= 70,
    ensures
        r@ == domain_of(bits@),
{
    proof {
        reveal_strlit(".");
    }
    let mut out = String::from_str(bits.substring_char(30, 70));
    out.append(".");
    out.append(bits.substring_char(20, 22));
    out
}

/// Separators hide nothing: reading them back as clear bits and decoding the
/// result recovers the key, whatever keystream placed them.
pub proof fn lemma_obfuscation_transparent(key: Seq<u8>, stream: Seq<u8>)
    ensures
        decode(stripped(obfuscated(encode(key), stream))) == key,
{
    let e = encode(key);
    assert(stripped(obfuscated(e, stream)) =~= e);
    lemma_round_trip(key);
}

} // verus!
