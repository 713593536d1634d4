//! Philox4x32-10 counter-based PRNG.
//!
//! Self-contained, no RNG crates. Constants and round function follow Salmon
//! et al., "Parallel Random Numbers: As Easy as 1, 2, 3" (SC'11). Being
//! counter-based, any block is addressable in O(1): replay verification can
//! reposition a stream without regenerating its prefix.
use vstd::prelude::*;

verus! {

pub const M0: u32 = 0xD251_1F53;
pub const M1: u32 = 0xCD9E_8D57;
pub const W0: u32 = 0x9E37_79B9;
pub const W1: u32 = 0xBB67_AE85;
pub const ROUNDS: u32 = 10;

/// Stream-domain constants. Frozen forever; never renumber.
#[derive(Debug, Clone, Copy, PartialEq, Eq, Structural)]
pub enum SeedDomain {
    Genesis,
    Market,
    Events,
    Stimuli,
    Bots,
}

pub open spec fn domain_value(d: SeedDomain) -> u32 {
    match d {
        SeedDomain::Genesis => 1,
        SeedDomain::Market => 2,
        SeedDomain::Events => 3,
        SeedDomain::Stimuli => 4,
        SeedDomain::Bots => 5,
    }
}

impl SeedDomain {
    /// The frozen wire value of the domain.
    pub fn value(self) -> (v: u32)
        ensures
            v == domain_value(self),
    {
        match self {
            SeedDomain::Genesis => 1,
            SeedDomain::Market => 2,
            SeedDomain::Events => 3,
            SeedDomain::Stimuli => 4,
            SeedDomain::Bots => 5,
        }
    }
}

pub open spec fn hi_spec(a: u32, b: u32) -> u32 {
    ((a as nat * b as nat) / 0x1_0000_0000) as u32
}

pub open spec fn lo_spec(a: u32, b: u32) -> u32 {
    ((a as nat * b as nat) % 0x1_0000_0000) as u32
}

/// The 64-bit product of two words, split into its high and low halves.
pub fn mulhilo(a: u32, b: u32) -> (r: (u32, u32))
    ensures
        r.0 == hi_spec(a, b),
        r.1 == lo_spec(a, b),
{
    proof {
        assert((a as nat) * (b as nat) <= 0xffff_ffff * 0xffff_ffff) by (nonlinear_arith)
            requires a <= 0xffff_ffff, b <= 0xffff_ffff;
    }
    let p: u64 = (a as u64) * (b as u64);
    let hi = (p >> 32u64) as u32;
    let lo = p as u32;
    proof {
        assert(p >> 32u64 == p / 0x1_0000_0000) by (bit_vector);
        assert((p as u32) == p % 0x1_0000_0000) by (bit_vector);
    }
    (hi, lo)
}

/// One Philox round on a counter block under a key.
pub open spec fn round_spec(ctr: Seq<u32>, key: Seq<u32>) -> Seq<u32> {
    seq![
        hi_spec(M1, ctr[2]) ^ ctr[1] ^ key[0],
        lo_spec(M1, ctr[2]),
        hi_spec(M0, ctr[0]) ^ ctr[3] ^ key[1],
        lo_spec(M0, ctr[0]),
    ]
}

/// The key schedule: both key words advance by the Weyl constants.
pub open spec fn bump_spec(key: Seq<u32>) -> Seq<u32> {
    seq![key[0].wrapping_add(W0), key[1].wrapping_add(W1)]
}

/// `n` rounds (n >= 1), bumping the key between consecutive rounds.
pub open spec fn rounds_spec(ctr: Seq<u32>, key: Seq<u32>, n: nat) -> Seq<u32>
    decreases n,
{
    if n <= 1 {
        round_spec(ctr, key)
    } else {
        rounds_spec(round_spec(ctr, key), bump_spec(key), (n - 1) as nat)
    }
}

/// One Philox4x32-10 block.
pub open spec fn philox_spec(counter: Seq<u32>, key: Seq<u32>) -> Seq<u32> {
    rounds_spec(counter, key, 10)
}

pub fn single_round(ctr: [u32; 4], key: [u32; 2]) -> (r: [u32; 4])
    ensures
        r@ == round_spec(ctr@, key@),
{
    let (hi0, lo0) = mulhilo(M0, ctr[0]);
    let (hi1, lo1) = mulhilo(M1, ctr[2]);
    let r = [hi1 ^ ctr[1] ^ key[0], lo1, hi0 ^ ctr[3] ^ key[1], lo0];
    assert(r@ =~= round_spec(ctr@, key@));
    r
}

pub fn k0_bump(k: [u32; 2]) -> (r: u32)
    ensures
        r == k@[0].wrapping_add(W0),
{
    k[0].wrapping_add(W0)
}

pub fn k1_bump(k: [u32; 2]) -> (r: u32)
    ensures
        r == k@[1].wrapping_add(W1),
{
    k[1].wrapping_add(W1)
}

/// One Philox4x32-10 block: 128 bits of counter + 64 bits of key -> 4 words.
pub fn philox4x32_10(counter: [u32; 4], key: [u32; 2]) -> (r: [u32; 4])
    ensures
        r@ == philox_spec(counter@, key@),
{
    let mut ctr = counter;
    let mut k = key;
    let mut round: u32 = 0;
    loop
        invariant
            round < ROUNDS,
            rounds_spec(ctr@, k@, (ROUNDS - round) as nat) == philox_spec(counter@, key@),
        decreases ROUNDS - round,
    {
        let next = single_round(ctr, k);
        round = round + 1;
        if round >= ROUNDS {
            return next;
        }
        let nk = [k0_bump(k), k1_bump(k)];
        proof {
            assert(nk@ =~= bump_spec(k@));
        }
        ctr = next;
        k = nk;
    }
}

pub open spec fn le_word(a: u8, b: u8, c: u8, d: u8) -> u32 {
    (a as nat + b as nat * 0x100 + c as nat * 0x1_0000 + d as nat * 0x100_0000) as u32
}

/// Derive the campaign key from the first 8 bytes of the content-derived
/// campaign seed: two little-endian words.
pub fn campaign_key_from_seed(seed: [u8; 8]) -> (k: [u32; 2])
    ensures
        k@ == seq![
            le_word(seed@[0], seed@[1], seed@[2], seed@[3]),
            le_word(seed@[4], seed@[5], seed@[6], seed@[7]),
        ],
{
    let k0 = word_from_le(seed[0], seed[1], seed[2], seed[3]);
    let k1 = word_from_le(seed[4], seed[5], seed[6], seed[7]);
    let k = [k0, k1];
    assert(k@ =~= seq![
        le_word(seed@[0], seed@[1], seed@[2], seed@[3]),
        le_word(seed@[4], seed@[5], seed@[6], seed@[7]),
    ]);
    k
}

fn word_from_le(a: u8, b: u8, c: u8, d: u8) -> (w: u32)
    ensures
        w == le_word(a, b, c, d),
{
    let w: u32 = (a as u32) + (b as u32) * 0x100 + (c as u32) * 0x1_0000 + (d as u32)
        * 0x100_0000;
    w
}

/// The counter block for `block` on `substream`.
pub open spec fn counter_spec(block: u64, substream: u64) -> Seq<u32> {
    seq![
        (block % 0x1_0000_0000) as u32,
        (block / 0x1_0000_0000) as u32,
        (substream % 0x1_0000_0000) as u32,
        (substream / 0x1_0000_0000) as u32,
    ]
}

/// The four words of block `block` on a stream.
pub open spec fn block_words(key: Seq<u32>, substream: u64, block: u64) -> Seq<u32> {
    philox_spec(counter_spec(block, substream), key)
}

pub open spec fn prev_block(block: u64) -> u64 {
    if block == 0 {
        u64::MAX
    } else {
        (block - 1) as u64
    }
}

pub open spec fn next_block(block: u64) -> u64 {
    if block == u64::MAX {
        0
    } else {
        (block + 1) as u64
    }
}

/// What a stream is, abstractly: its key, its substream, the next block to
/// generate and how far into the current block it has read (4 = exhausted).
pub struct StreamView {
    pub key: Seq<u32>,
    pub substream: u64,
    pub block: u64,
    pub buf_next: u8,
}

/// The next word a stream yields and the stream after yielding it.
pub open spec fn view_next_u32(v: StreamView) -> (u32, StreamView) {
    if v.buf_next < 4 {
        (
            block_words(v.key, v.substream, prev_block(v.block))[v.buf_next as int],
            StreamView { buf_next: (v.buf_next + 1) as u8, ..v },
        )
    } else {
        (
            block_words(v.key, v.substream, v.block)[0],
            StreamView { block: next_block(v.block), buf_next: 1, ..v },
        )
    }
}

/// A stream repositioned to the start of `block`.
pub open spec fn view_seek(v: StreamView, block: u64) -> StreamView {
    StreamView { block, buf_next: 4, ..v }
}

/// The key a stream of `domain` runs under.
pub open spec fn domain_key(campaign_key: Seq<u32>, domain: SeedDomain) -> Seq<u32> {
    seq![campaign_key[0] ^ domain_value(domain), campaign_key[1]]
}

/// A deterministic, domain-separated, randomly addressable stream.
///
/// key     = campaign_key with the domain constant XORed into word 0,
/// counter = [block_lo, block_hi, substream_lo, substream_hi].
#[derive(Debug, Clone, Copy)]
pub struct PhiloxStream {
    key: [u32; 2],
    substream: u64,
    block: u64,
    buf: [u32; 4],
    /// Index of the next unconsumed word in `buf`; 4 = buffer exhausted.
    buf_next: u8,
}

impl View for PhiloxStream {
    type V = StreamView;

    closed spec fn view(&self) -> StreamView {
        StreamView {
            key: self.key@,
            substream: self.substream,
            block: self.block,
            buf_next: self.buf_next,
        }
    }
}

impl PhiloxStream {
    /// The buffered words are exactly the block before the next one.
    pub closed spec fn wf(&self) -> bool {
        &&& self.buf_next <= 4
        &&& self.buf_next < 4 ==> self.buf@ == block_words(
            self.key@,
            self.substream,
            prev_block(self.block),
        )
    }

    pub proof fn lemma_view(&self)
        ensures
            self@.key.len() == 2,
            self.wf() ==> self@.buf_next <= 4,
    {
    }

    pub fn new(campaign_key: [u32; 2], domain: SeedDomain, substream: u64) -> (s: Self)
        ensures
            s.wf(),
            s@ == (StreamView {
                key: domain_key(campaign_key@, domain),
                substream,
                block: 0,
                buf_next: 4,
            }),
    {
        let key = [campaign_key[0] ^ domain.value(), campaign_key[1]];
        assert(key@ =~= domain_key(campaign_key@, domain));
        PhiloxStream { key, substream, block: 0, buf: [0; 4], buf_next: 4 }
    }

    /// Exact position in the stream: the counter block and how much of the
    /// current 4-word buffer has been consumed.
    pub fn position(&self) -> (p: (u64, u8))
        ensures
            p == (self@.block, self@.buf_next),
    {
        (self.block, self.buf_next)
    }

    pub fn counter_for(&self, block: u64) -> (c: [u32; 4])
        ensures
            c@ == counter_spec(block, self@.substream),
    {
        let c = [
            block as u32,
            (block >> 32u64) as u32,
            self.substream as u32,
            (self.substream >> 32u64) as u32,
        ];
        proof {
            let s = self.substream;
            assert(block as u32 == block % 0x1_0000_0000) by (bit_vector);
            assert((block >> 32u64) as u32 == block / 0x1_0000_0000) by (bit_vector);
            assert(s as u32 == s % 0x1_0000_0000) by (bit_vector);
            assert((s >> 32u64) as u32 == s / 0x1_0000_0000) by (bit_vector);
        }
        assert(c@ =~= counter_spec(block, self@.substream));
        c
    }

    /// Reposition to an absolute block index (replay random access).
    pub fn seek_block(&mut self, block: u64)
        requires
            old(self).wf(),
        ensures
            final(self).wf(),
            final(self)@ == view_seek(old(self)@, block),
    {
        self.block = block;
        self.buf_next = 4;
    }

    pub fn next_u32(&mut self) -> (out: u32)
        requires
            old(self).wf(),
        ensures
            final(self).wf(),
            (out, final(self)@) == view_next_u32(old(self)@),
    {
        if self.buf_next < 4 {
            let out = self.buf[self.buf_next as usize];
            self.buf_next = self.buf_next + 1;
            return out;
        }
        let ctr = self.counter_for(self.block);
        self.buf = philox4x32_10(ctr, self.key);
        self.block = self.block.wrapping_add(1);
        self.buf_next = 1;
        self.buf[0]
    }

    pub fn next_u64(&mut self) -> (out: u64)
        requires
            old(self).wf(),
        ensures
            final(self).wf(),
            ({
                let (lo, s1) = view_next_u32(old(self)@);
                let (hi, s2) = view_next_u32(s1);
                out == hi as nat * 0x1_0000_0000 + lo as nat && final(self)@ == s2
            }),
    {
        let lo = self.next_u32() as u64;
        let hi = self.next_u32() as u64;
        proof {
            assert(hi <= 0xffff_ffff && lo <= 0xffff_ffff ==> (hi << 32u64) | lo == hi * 0x1_0000_0000
                + lo) by (bit_vector);
        }
        (hi << 32u64) | lo
    }
}

/// Random access: after seeking to `block`, the next four words a stream
/// yields are exactly the four words of that block, whatever its history.
pub proof fn law_seek_reads_the_addressed_block(v: StreamView, block: u64)
    ensures
        ({
            let (w0, s1) = view_next_u32(view_seek(v, block));
            let (w1, s2) = view_next_u32(s1);
            let (w2, s3) = view_next_u32(s2);
            let (w3, s4) = view_next_u32(s3);
            &&& w0 == block_words(v.key, v.substream, block)[0]
            &&& w1 == block_words(v.key, v.substream, block)[1]
            &&& w2 == block_words(v.key, v.substream, block)[2]
            &&& w3 == block_words(v.key, v.substream, block)[3]
            &&& s4.block == next_block(block)
            &&& s4.buf_next == 4
        }),
{
}

/// Two streams in the same state yield the same word and stay in step:
/// the stream is a pure function of its position.
pub proof fn law_stream_is_deterministic(a: StreamView, b: StreamView)
    requires
        a == b,
    ensures
        view_next_u32(a) == view_next_u32(b),
{
}

/// The stream after `n` word draws.
pub open spec fn draws(v: StreamView, n: nat) -> StreamView
    decreases n,
{
    if n == 0 {
        v
    } else {
        view_next_u32(draws(v, (n - 1) as nat)).1
    }
}

proof fn lemma_draws_compose(v: StreamView, m: nat, n: nat)
    ensures
        draws(v, m + n) == draws(draws(v, m), n),
    decreases n,
{
    if n > 0 {
        lemma_draws_compose(v, m, (n - 1) as nat);
        assert((m + n - 1) as nat == m + (n - 1) as nat);
    }
}

proof fn lemma_four_draws_finish_a_block(v: StreamView)
    requires
        v.buf_next == 4,
    ensures
        draws(v, 4) == (StreamView { block: next_block(v.block), buf_next: 4, ..v }),
{
    reveal_with_fuel(draws, 5);
}

/// Random access agrees with sequential reading: `4k` word draws from a
/// fresh stream leave it exactly where seeking to block `k` puts it, so the
/// next words read either way are the same block's words.
pub proof fn law_sequential_draws_reach_the_seeked_block(v: StreamView, k: u64)
    requires
        v.block == 0,
        v.buf_next == 4,
    ensures
        draws(v, 4 * k as nat) == view_seek(v, k),
    decreases k,
{
    if k > 0 {
        law_sequential_draws_reach_the_seeked_block(v, (k - 1) as u64);
        lemma_draws_compose(v, 4 * (k - 1) as nat, 4);
        assert(4 * (k - 1) as nat + 4 == 4 * k as nat);
        lemma_four_draws_finish_a_block(view_seek(v, (k - 1) as u64));
    }
}

} // verus!
