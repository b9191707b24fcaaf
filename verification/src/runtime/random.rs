//! Counter-based random numbers: ten rounds of Philox with four words.

use vstd::prelude::*;

verus! {

pub const PHILOX_M4X32_0: u32 = 0xD2511F53;

pub const PHILOX_M4X32_1: u32 = 0xCD9E8D57;

pub const PHILOX_W32_0: u32 = 0x9E3779B9;

pub const PHILOX_W32_1: u32 = 0xBB67AE85;

/// High word of a product.
pub open spec fn high(a: u32, b: u32) -> u32 {
    ((a * b) / 0x1_0000_0000) as u32
}

/// Low word of a product.
pub open spec fn low(a: u32, b: u32) -> u32 {
    ((a * b) % 0x1_0000_0000) as u32
}

/// High and low word of a product.
pub fn mulhilo32(a: u32, b: u32) -> (r: (u32, u32))
    ensures
        r.0 == high(a, b),
        r.1 == low(a, b),
        r.0 * 0x1_0000_0000 + r.1 == a * b,
{
    assert(0 <= a * b <= 0xFFFF_FFFE_0000_0001) by (nonlinear_arith)
        requires
            0 <= a <= 0xFFFF_FFFF,
            0 <= b <= 0xFFFF_FFFF,
    ;
    let p: u64 = (a as u64) * (b as u64);
    let h: u64 = p / 0x1_0000_0000;
    let l: u64 = p % 0x1_0000_0000;
    (h as u32, l as u32)
}

/// One round on the counter words.
pub open spec fn round(c: Seq<u32>, k: Seq<u32>) -> Seq<u32> {
    seq![
        high(c[2], PHILOX_M4X32_1) ^ c[1] ^ k[0],
        low(c[2], PHILOX_M4X32_1),
        high(c[0], PHILOX_M4X32_0) ^ c[3] ^ k[1],
        low(c[0], PHILOX_M4X32_0),
    ]
}

/// The key of the next round.
pub open spec fn bump(k: Seq<u32>) -> Seq<u32> {
    seq![
        ((k[0] + PHILOX_W32_0) % 0x1_0000_0000) as u32,
        ((k[1] + PHILOX_W32_1) % 0x1_0000_0000) as u32,
    ]
}

/// A number of rounds.
pub open spec fn rounds(c: Seq<u32>, k: Seq<u32>, n: nat) -> Seq<u32>
    decreases n,
{
    if n == 0 {
        c
    } else {
        rounds(round(c, k), bump(k), (n - 1) as nat)
    }
}

fn bump_word(x: u32, w: u32) -> (r: u32)
    ensures
        r == ((x + w) % 0x1_0000_0000) as u32,
{
    let s: u64 = x as u64 + w as u64;
    (s % 0x1_0000_0000) as u32
}

/// Ten rounds.
pub fn philox4x32_10(c: [u32; 4], k: [u32; 2]) -> (r: [u32; 4])
    ensures
        r@ == rounds(c@, k@, 10),
{
    let mut c0: u32 = c[0];
    let mut c1: u32 = c[1];
    let mut c2: u32 = c[2];
    let mut c3: u32 = c[3];
    let mut k0: u32 = k[0];
    let mut k1: u32 = k[1];
    let mut i: usize = 0;
    proof {
        assert(seq![c0, c1, c2, c3] =~= c@);
        assert(seq![k0, k1] =~= k@);
    }
    while i < 10
        invariant
            i <= 10,
            rounds(c@, k@, 10) == rounds(
                seq![c0, c1, c2, c3],
                seq![k0, k1],
                (10 - i) as nat,
            ),
        decreases 10 - i,
    {
        let (h0, l0) = mulhilo32(c0, PHILOX_M4X32_0);
        let (h1, l1) = mulhilo32(c2, PHILOX_M4X32_1);
        let ghost cs = seq![c0, c1, c2, c3];
        let ghost ks = seq![k0, k1];
        c0 = h1 ^ c1 ^ k0;
        c2 = h0 ^ c3 ^ k1;
        c1 = l1;
        c3 = l0;
        k0 = bump_word(k0, PHILOX_W32_0);
        k1 = bump_word(k1, PHILOX_W32_1);
        proof {
            assert(seq![c0, c1, c2, c3] =~= round(cs, ks));
            assert(seq![k0, k1] =~= bump(ks));
        }
        i = i + 1;
    }
    let out: [u32; 4] = [c0, c1, c2, c3];
    assert(out@ =~= seq![c0, c1, c2, c3]);
    out
}

/// Low half of a word pair.
pub open spec fn lower(x: u64) -> u32 {
    (x % 0x1_0000_0000) as u32
}

/// High half of a word pair.
pub open spec fn upper(x: u64) -> u32 {
    (x / 0x1_0000_0000) as u32
}

/// The key of a call.
pub open spec fn key_of(call: u64) -> Seq<u32> {
    seq![lower(call), upper(call)]
}

/// The words behind normal sample pair `pair` of a call.
pub open spec fn normal_words(call: u64, pair: u64) -> Seq<u32> {
    rounds(seq![lower(pair), upper(pair), 0u32, 0u32], key_of(call), 10)
}

/// The words behind a uniform sample.
pub open spec fn uniform_words(call: u64) -> Seq<u32> {
    rounds(seq![0u32, 0u32, 0u32, 0u32], key_of(call), 10)
}

/// The words behind an integer sample; the counter differs from that of a
/// uniform sample.
pub open spec fn integer_words(call: u64) -> Seq<u32> {
    rounds(seq![1u32, 0u32, 0u32, 0u32], key_of(call), 10)
}

/// The number of calls made so far; all kinds of sample share it.
#[derive(Clone, Copy, Debug, PartialEq, Eq, Structural)]
pub struct Random {
    pub calls: u64,
}

fn words(call: u64, low_word: u32, high_word: u32) -> (r: [u32; 4])
    ensures
        r@ == rounds(seq![low_word, high_word, 0u32, 0u32], key_of(call), 10),
{
    let lo: u64 = call % 0x1_0000_0000;
    let hi: u64 = call / 0x1_0000_0000;
    let key: [u32; 2] = [lo as u32, hi as u32];
    let ctr: [u32; 4] = [low_word, high_word, 0, 0];
    assert(key@ =~= key_of(call));
    assert(ctr@ =~= seq![low_word, high_word, 0u32, 0u32]);
    philox4x32_10(ctr, key)
}

impl Random {
    pub fn new() -> (r: Self)
        ensures
            r.calls == 0,
    {
        Random { calls: 0 }
    }

    /// Number of the current call; counts it.
    pub fn next_call(&mut self) -> (r: u64)
        ensures
            r == old(self).calls,
            final(self).calls == old(self).calls.wrapping_add(1),
    {
        let c: u64 = self.calls;
        self.calls = c.wrapping_add(1);
        c
    }

    /// The two words behind normal sample pair `pair` of a call.
    pub fn normal_pair(call: u64, pair: u64) -> (r: (u32, u32))
        ensures
            r.0 == normal_words(call, pair)[0],
            r.1 == normal_words(call, pair)[1],
    {
        let lo: u64 = pair % 0x1_0000_0000;
        let hi: u64 = pair / 0x1_0000_0000;
        let w = words(call, lo as u32, hi as u32);
        (w[0], w[1])
    }

    /// The word behind a uniform sample.
    pub fn uniform_word(&mut self) -> (r: u32)
        ensures
            r == uniform_words(old(self).calls)[0],
            final(self).calls == old(self).calls.wrapping_add(1),
    {
        let c: u64 = self.next_call();
        let w = words(c, 0, 0);
        w[0]
    }

    /// An integer sample below `n`; a negative `n` does not limit it.
    pub fn malus_rand_int(&mut self, n: i64) -> (r: i64)
        requires
            n != 0,
        ensures
            r == (if n > 0 {
                integer_words(old(self).calls)[0] as int % n as int
            } else {
                integer_words(old(self).calls)[0] as int
            }),
            n > 0 ==> 0 <= r < n,
            final(self).calls == old(self).calls.wrapping_add(1),
    {
        let c: u64 = self.next_call();
        let w = words(c, 1, 0);
        let v: i64 = w[0] as i64;
        if n > 0 {
            v % n
        } else {
            v
        }
    }
}

/// Number of normal sample pairs for `n` samples: half of it, rounded up.
pub fn normal_pairs(n: usize) -> (r: usize)
    ensures
        2 * r == n || 2 * r == n + 1,
{
    n / 2 + n % 2
}

} // verus!
