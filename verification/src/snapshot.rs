//! State digests and generation snapshots.
//!
//! The state digest covers the ledger, the firm, the market kernel's
//! continuous state and the exact offset of every random stream; it excludes
//! latency, wall-clock time and the market history ring. Snapshots are kept
//! in a bounded store that drops the oldest (they are redundant checkpoints,
//! not records), and a generation is only trusted once its payload re-hashes
//! to the digest it was stored under; there is no fallback to an older one.
//!
//! The firm's serialized form and the kernel's words are handed in as plain
//! values; this module frames them, hashes them and keeps the checkpoints.
use vstd::prelude::*;
use crate::digest::{
    decimal, le32, le64, prefix8, push_bytes, push_decimal, push_le32, push_le64,
    push_signed_decimal, sha256, sha256_spec, signed_decimal, truncate8,
};
use crate::genesis_json::{jkey, utf8};
use crate::ledger::{Balances, N_ACCOUNTS};

verus! {

/// Retained checkpoints.
pub const MAX_GENERATIONS: usize = 8;

/// Per-generation serialization ceiling.
pub const MAX_SNAPSHOT_BYTES: usize = 65_536;

pub const SNAPSHOT_SCHEMA: &'static str = "bxs.snapshot.v1";

#[derive(Debug, Clone, Copy, PartialEq, Eq, Structural)]
pub enum SnapshotError {
    Serialization,
    /// The payload does not hash to the id it was stored under.
    DigestMismatch,
    TooLarge { bytes: usize },
    NoGenerations,
    UnknownGeneration { generation: u32 },
}

/// A total fingerprint of the authoritative state.
#[derive(Debug, Clone, Copy, PartialEq, Eq, Hash)]
pub struct StateDigest(pub [u8; 32]);

impl StateDigest {
    /// The 8-byte prefix carried on every decision record: a cross-reference,
    /// not a proof of equality.
    pub fn short(&self) -> (s: [u8; 8])
        ensures
            s@ == prefix8(self.0@),
    {
        truncate8(&self.0)
    }
}

/// The market kernel's state as the digest sees it: its tick, its regime
/// id, its continuous state and its stream positions, as raw words.
#[derive(Debug, Clone, Copy, PartialEq, Eq)]
pub struct KernelState {
    pub tick: u32,
    pub regime: u8,
    pub market_state: [u64; 4],
    pub rng_position: [u64; 8],
}

/// Little-endian bytes of a sequence of words.
pub open spec fn words_le(s: Seq<u64>) -> Seq<u8>
    decreases s.len(),
{
    if s.len() == 0 {
        Seq::empty()
    } else {
        words_le(s.drop_last()) + le64(s.last())
    }
}

/// Each account's id byte and little-endian balance, in chart order.
pub open spec fn balances_le(b: Seq<i64>, n: int) -> Seq<u8>
    decreases n,
{
    if n <= 0 {
        Seq::empty()
    } else {
        balances_le(b, n - 1) + seq![(n - 1) as u8] + le64(b[n - 1] as u64)
    }
}

/// What the state digest hashes, in frozen field order.
pub open spec fn state_preimage(k: KernelState, b: Seq<i64>, firm_json: Seq<u8>) -> Seq<u8> {
    utf8(SNAPSHOT_SCHEMA) + le32(k.tick) + seq![k.regime] + words_le(k.market_state@) + words_le(
        k.rng_position@,
    ) + balances_le(b, N_ACCOUNTS as int) + le64(firm_json.len() as u64) + firm_json
}

fn push_words_le(out: &mut Vec<u8>, words: &[u64])
    ensures
        final(out)@ == old(out)@ + words_le(words@),
{
    let n = words.len();
    let mut i: usize = 0;
    while i < n
        invariant
            n == words@.len(),
            i <= n,
            out@ == old(out)@ + words_le(words@.subrange(0, i as int)),
        decreases n - i,
    {
        proof {
            assert(words@.subrange(0, i as int + 1).drop_last() =~= words@.subrange(0, i as int));
        }
        push_le64(out, words[i]);
        assert(out@ =~= old(out)@ + words_le(words@.subrange(0, i as int + 1)));
        i = i + 1;
    }
    assert(words@.subrange(0, n as int) =~= words@);
}

/// Hash the full authoritative state: the schema, the kernel's tick,
/// regime, state words and stream positions, every account's balance in
/// chart order, then the firm's serialized form with its length.
pub fn digest_state(kernel: &KernelState, balances: &Balances, firm_json: &[u8]) -> (r: Result<
    StateDigest,
    SnapshotError,
>)
    ensures
        r matches Ok(d) && d.0@ == sha256_spec(state_preimage(*kernel, balances@, firm_json@)),
{
    proof {
        balances.lemma_len();
    }
    let mut buf: Vec<u8> = Vec::new();
    push_bytes(&mut buf, SNAPSHOT_SCHEMA.as_bytes());
    push_le32(&mut buf, kernel.tick);
    buf.push(kernel.regime);
    push_words_le(&mut buf, &kernel.market_state);
    push_words_le(&mut buf, &kernel.rng_position);
    let ghost before = buf@;
    let mut i: usize = 0;
    while i < N_ACCOUNTS
        invariant
            i <= N_ACCOUNTS,
            balances@.len() == N_ACCOUNTS,
            buf@ == before + balances_le(balances@, i as int),
        decreases N_ACCOUNTS - i,
    {
        let account = match crate::ledger::AccountCode::from_index(i) {
            Some(a) => a,
            None => crate::ledger::AccountCode::Cash,
        };
        proof {
            crate::ledger::lemma_index_of_at(i as int);
        }
        buf.push(i as u8);
        push_le64(&mut buf, balances.balance_minor(account) as u64);
        assert(buf@ =~= before + balances_le(balances@, i as int + 1));
        i = i + 1;
    }
    push_le64(&mut buf, firm_json.len() as u64);
    push_bytes(&mut buf, firm_json);
    assert(buf@ =~= state_preimage(*kernel, balances@, firm_json@));
    Ok(StateDigest(sha256(buf.as_slice())))
}

/// Comma-separated decimal words.
pub open spec fn json_words(s: Seq<u64>) -> Seq<u8>
    decreases s.len(),
{
    if s.len() == 0 {
        Seq::empty()
    } else if s.len() == 1 {
        decimal(s[0] as nat)
    } else {
        json_words(s.drop_last()) + seq![44u8] + decimal(s.last() as nat)
    }
}

/// `[id,balance]` pairs for the first `n` accounts, comma-separated.
pub open spec fn json_balances(b: Seq<i64>, n: int) -> Seq<u8>
    decreases n,
{
    if n <= 0 {
        Seq::empty()
    } else {
        let pair = seq![91u8] + decimal((n - 1) as nat) + seq![44u8] + signed_decimal(b[n - 1] as int)
            + seq![93u8];
        if n == 1 {
            pair
        } else {
            json_balances(b, n - 1) + seq![44u8] + pair
        }
    }
}

/// The stored form of a checkpoint: a JSON object with the tick, the regime
/// id, the kernel words, the balances as `[id,balance]` pairs, and the
/// firm's serialized form.
pub open spec fn payload_json(k: KernelState, b: Seq<i64>, firm_json: Seq<u8>) -> Seq<u8> {
    seq![123u8] + jkey(utf8("tick")) + decimal(k.tick as nat) + seq![44u8] + jkey(utf8("regime"))
        + decimal(k.regime as nat) + seq![44u8] + jkey(utf8("marketState")) + seq![91u8]
        + json_words(k.market_state@) + seq![93u8, 44u8] + jkey(utf8("rngPosition")) + seq![91u8]
        + json_words(k.rng_position@) + seq![93u8, 44u8] + jkey(utf8("balances")) + seq![91u8]
        + json_balances(b, N_ACCOUNTS as int) + seq![93u8, 44u8] + jkey(utf8("firm")) + firm_json
        + seq![125u8]
}

/// What binds a checkpoint to its own bytes.
pub open spec fn binding_preimage(tick: u32, payload: Seq<u8>) -> Seq<u8> {
    utf8(SNAPSHOT_SCHEMA) + le32(tick) + payload
}

fn push_json_words(out: &mut Vec<u8>, words: &[u64])
    ensures
        final(out)@ == old(out)@ + json_words(words@),
{
    let n = words.len();
    let mut i: usize = 0;
    while i < n
        invariant
            n == words@.len(),
            i <= n,
            out@ == old(out)@ + json_words(words@.subrange(0, i as int)),
        decreases n - i,
    {
        proof {
            assert(words@.subrange(0, i as int + 1).drop_last() =~= words@.subrange(0, i as int));
        }
        if i > 0 {
            out.push(44u8);
        }
        push_decimal(out, words[i]);
        assert(out@ =~= old(out)@ + json_words(words@.subrange(0, i as int + 1)));
        i = i + 1;
    }
    assert(words@.subrange(0, n as int) =~= words@);
}

fn push_json_balances(out: &mut Vec<u8>, balances: &Balances)
    ensures
        final(out)@ == old(out)@ + json_balances(balances@, N_ACCOUNTS as int),
{
    proof {
        balances.lemma_len();
    }
    let mut i: usize = 0;
    while i < N_ACCOUNTS
        invariant
            i <= N_ACCOUNTS,
            balances@.len() == N_ACCOUNTS,
            out@ == old(out)@ + json_balances(balances@, i as int),
        decreases N_ACCOUNTS - i,
    {
        let account = match crate::ledger::AccountCode::from_index(i) {
            Some(a) => a,
            None => crate::ledger::AccountCode::Cash,
        };
        proof {
            crate::ledger::lemma_index_of_at(i as int);
        }
        if i > 0 {
            out.push(44u8);
        }
        out.push(91u8);
        push_decimal(out, i as u64);
        out.push(44u8);
        push_signed_decimal(out, balances.balance_minor(account));
        out.push(93u8);
        assert(out@ =~= old(out)@ + json_balances(balances@, i as int + 1));
        i = i + 1;
    }
}

fn payload_bytes(kernel: &KernelState, balances: &Balances, firm_json: &[u8]) -> (out: Vec<u8>)
    ensures
        out@ == payload_json(*kernel, balances@, firm_json@),
{
    let mut out: Vec<u8> = Vec::new();
    out.push(123u8);
    crate::genesis_json::push_key(&mut out, "tick");
    push_decimal(&mut out, kernel.tick as u64);
    out.push(44u8);
    crate::genesis_json::push_key(&mut out, "regime");
    push_decimal(&mut out, kernel.regime as u64);
    out.push(44u8);
    crate::genesis_json::push_key(&mut out, "marketState");
    out.push(91u8);
    push_json_words(&mut out, &kernel.market_state);
    out.push(93u8);
    out.push(44u8);
    crate::genesis_json::push_key(&mut out, "rngPosition");
    out.push(91u8);
    push_json_words(&mut out, &kernel.rng_position);
    out.push(93u8);
    out.push(44u8);
    crate::genesis_json::push_key(&mut out, "balances");
    out.push(91u8);
    push_json_balances(&mut out, balances);
    out.push(93u8);
    out.push(44u8);
    crate::genesis_json::push_key(&mut out, "firm");
    push_bytes(&mut out, firm_json);
    out.push(125u8);
    assert(out@ =~= payload_json(*kernel, balances@, firm_json@));
    out
}

/// Bind a checkpoint's tick and payload: SHA-256 over the schema, the tick
/// and the payload bytes.
pub fn payload_binding(tick: u32, payload: &[u8]) -> (d: StateDigest)
    ensures
        d.0@ == sha256_spec(binding_preimage(tick, payload@)),
{
    let mut buf: Vec<u8> = Vec::new();
    push_bytes(&mut buf, SNAPSHOT_SCHEMA.as_bytes());
    push_le32(&mut buf, tick);
    push_bytes(&mut buf, payload);
    assert(buf@ =~= binding_preimage(tick, payload@));
    StateDigest(sha256(buf.as_slice()))
}

/// A checkpoint taken at a period close: the replay anchor (`state_digest`)
/// and the binding of the record to its own bytes (`payload_digest`).
#[derive(Debug, Clone, PartialEq)]
pub struct Generation {
    pub schema: &'static str,
    pub generation: u32,
    pub tick: u32,
    pub state_digest: StateDigest,
    pub payload_digest: StateDigest,
    pub payload: Vec<u8>,
}

/// Bounded, append-only ring of checkpoints.
#[derive(Debug, Clone)]
pub struct GenerationStore {
    generations: Vec<Generation>,
    next_generation: u32,
}

pub open spec fn binds(g: Generation) -> bool {
    g.payload_digest.0@ == sha256_spec(binding_preimage(g.tick, g.payload@))
}

impl GenerationStore {
    pub closed spec fn gens(&self) -> Seq<Generation> {
        self.generations@
    }

    pub closed spec fn next_gen(&self) -> u32 {
        self.next_generation
    }

    /// At most `MAX_GENERATIONS` checkpoints, each bound to its own bytes.
    pub closed spec fn wf(&self) -> bool {
        &&& self.generations@.len() <= MAX_GENERATIONS
        &&& forall|i: int| 0 <= i < self.generations@.len() ==> binds(#[trigger] self.generations@[i])
    }

    pub proof fn lemma_wf(&self)
        requires
            self.wf(),
        ensures
            self.gens().len() <= MAX_GENERATIONS,
            forall|i: int| 0 <= i < self.gens().len() ==> binds(#[trigger] self.gens()[i]),
    {
    }

    pub fn new() -> (s: Self)
        ensures
            s.wf(),
            s.gens() == Seq::<Generation>::empty(),
            s.next_gen() == 0,
    {
        GenerationStore { generations: Vec::new(), next_generation: 0 }
    }

    /// Capture the current state under the next generation number. A payload
    /// over the size budget is refused and nothing changes; otherwise the
    /// oldest checkpoint is dropped when the store is full and the new one is
    /// appended.
    pub fn capture(&mut self, kernel: &KernelState, balances: &Balances, firm_json: &[u8]) -> (r:
        Result<u32, SnapshotError>)
        requires
            old(self).wf(),
        ensures
            final(self).wf(),
            ({
                let payload = payload_json(*kernel, balances@, firm_json@);
                if payload.len() > MAX_SNAPSHOT_BYTES {
                    &&& r == Err::<u32, SnapshotError>(
                        SnapshotError::TooLarge { bytes: payload.len() as usize },
                    )
                    &&& final(self).gens() == old(self).gens()
                    &&& final(self).next_gen() == old(self).next_gen()
                } else {
                    let kept = if old(self).gens().len() == MAX_GENERATIONS {
                        old(self).gens().drop_first()
                    } else {
                        old(self).gens()
                    };
                    let g = final(self).gens().last();
                    &&& r == Ok::<u32, SnapshotError>(old(self).next_gen())
                    &&& final(self).next_gen() == (if old(self).next_gen() == u32::MAX {
                        u32::MAX
                    } else {
                        (old(self).next_gen() + 1) as u32
                    })
                    &&& final(self).gens().len() == kept.len() + 1
                    &&& final(self).gens().drop_last() == kept
                    &&& g.schema == SNAPSHOT_SCHEMA
                    &&& g.generation == old(self).next_gen()
                    &&& g.tick == kernel.tick
                    &&& g.state_digest.0@ == sha256_spec(
                        state_preimage(*kernel, balances@, firm_json@),
                    )
                    &&& g.payload@ == payload
                    &&& binds(g)
                }
            }),
    {
        let digest = match digest_state(kernel, balances, firm_json) {
            Ok(d) => d,
            Err(e) => return Err(e),
        };
        let bytes = payload_bytes(kernel, balances, firm_json);
        if bytes.len() > MAX_SNAPSHOT_BYTES {
            return Err(SnapshotError::TooLarge { bytes: bytes.len() });
        }
        let generation = self.next_generation;
        self.next_generation = if self.next_generation == u32::MAX {
            u32::MAX
        } else {
            self.next_generation + 1
        };
        if self.generations.len() == MAX_GENERATIONS {
            self.generations.remove(0);
        }
        let payload_digest = payload_binding(kernel.tick, bytes.as_slice());
        self.generations.push(
            Generation {
                schema: SNAPSHOT_SCHEMA,
                generation,
                tick: kernel.tick,
                state_digest: digest,
                payload_digest,
                payload: bytes,
            },
        );
        Ok(generation)
    }

    /// Rehydrate a store from persisted checkpoints. Nothing in it is
    /// trusted: each generation must pass `verify` before it is loaded.
    pub fn from_generations(generations: Vec<Generation>, next_generation: u32) -> (s: Self)
        ensures
            s.gens() == generations@,
            s.next_gen() == next_generation,
    {
        GenerationStore { generations, next_generation }
    }

    /// The checkpoints, oldest first.
    pub fn generations(&self) -> (r: &[Generation])
        ensures
            r@ == self.gens(),
    {
        self.generations.as_slice()
    }

    /// The generation number the next capture will take.
    pub fn next_generation(&self) -> (g: u32)
        ensures
            g == self.next_gen(),
    {
        self.next_generation
    }

    pub fn len(&self) -> (n: usize)
        ensures
            n == self.gens().len(),
    {
        self.generations.len()
    }

    pub fn is_empty(&self) -> (b: bool)
        ensures
            b == (self.gens().len() == 0),
    {
        self.generations.len() == 0
    }

    /// Bytes held by every payload, saturating.
    pub fn resident_bytes(&self) -> (n: usize)
        ensures
            n == resident_spec(self.gens(), self.gens().len() as int),
    {
        let mut total: usize = 0;
        let mut i: usize = 0;
        while i < self.generations.len()
            invariant
                i <= self.generations@.len(),
                total == resident_spec(self.generations@, i as int),
            decreases self.generations@.len() - i,
        {
            let l = self.generations[i].payload.len();
            total = if total > usize::MAX - l {
                usize::MAX
            } else {
                total + l
            };
            i = i + 1;
        }
        total
    }

    /// The newest checkpoint, or `NoGenerations`.
    pub fn latest(&self) -> (r: Result<&Generation, SnapshotError>)
        ensures
            self.gens().len() == 0 ==> r == Err::<&Generation, SnapshotError>(
                SnapshotError::NoGenerations,
            ),
            self.gens().len() > 0 ==> r == Ok::<&Generation, SnapshotError>(&self.gens().last()),
    {
        let n = self.generations.len();
        if n == 0 {
            Err(SnapshotError::NoGenerations)
        } else {
            Ok(&self.generations[n - 1])
        }
    }

    /// The checkpoint stored under `generation`, or `UnknownGeneration`.
    pub fn get(&self, generation: u32) -> (r: Result<&Generation, SnapshotError>)
        ensures
            r is Err <==> forall|j: int|
                0 <= j < self.gens().len() ==> (#[trigger] self.gens()[j]).generation != generation,
            r is Err ==> r == Err::<&Generation, SnapshotError>(
                SnapshotError::UnknownGeneration { generation },
            ),
            r matches Ok(g) ==> (exists|i: int|
                0 <= i < self.gens().len() && self.gens()[i] == *g && g.generation == generation
                    && forall|j: int|
                    0 <= j < i ==> (#[trigger] self.gens()[j]).generation != generation),
    {
        let mut i: usize = 0;
        while i < self.generations.len()
            invariant
                i <= self.generations@.len(),
                forall|j: int|
                    0 <= j < i ==> (#[trigger] self.generations@[j]).generation != generation,
            decreases self.generations@.len() - i,
        {
            if self.generations[i].generation == generation {
                assert(self.gens()[i as int].generation == generation);
                return Ok(&self.generations[i]);
            }
            i = i + 1;
        }
        Err(SnapshotError::UnknownGeneration { generation })
    }

    /// Re-bind a checkpoint to its payload. Failure is terminal for that
    /// generation and never falls through to an older one. Every checkpoint
    /// this store captured verifies.
    pub fn verify(&self, generation: u32) -> (r: Result<(), SnapshotError>)
        ensures
            (forall|j: int|
                0 <= j < self.gens().len() ==> (#[trigger] self.gens()[j]).generation
                    != generation) ==> r == Err::<(), SnapshotError>(
                SnapshotError::UnknownGeneration { generation },
            ),
            forall|i: int|
                0 <= i < self.gens().len() && (#[trigger] self.gens()[i]).generation == generation
                    && (forall|j: int|
                    0 <= j < i ==> (#[trigger] self.gens()[j]).generation != generation) ==> (if binds(
                    self.gens()[i],
                ) {
                    r is Ok
                } else {
                    r == Err::<(), SnapshotError>(SnapshotError::DigestMismatch)
                }),
            self.wf() && (exists|i: int|
                0 <= i < self.gens().len() && (#[trigger] self.gens()[i]).generation == generation)
                ==> r is Ok,
    {
        proof {
            if self.wf() {
                self.lemma_wf();
            }
        }
        let g = match self.get(generation) {
            Ok(g) => g,
            Err(e) => return Err(e),
        };
        let d = payload_binding(g.tick, g.payload.as_slice());
        if crate::genesis::bytes32_eq(&d.0, &g.payload_digest.0) {
            Ok(())
        } else {
            Err(SnapshotError::DigestMismatch)
        }
    }
}

/// Saturating total of the first `n` payload lengths.
pub open spec fn resident_spec(g: Seq<Generation>, n: int) -> usize
    decreases n,
{
    if n <= 0 {
        0
    } else {
        let prev = resident_spec(g, n - 1);
        let l = g[n - 1].payload@.len();
        if prev + l > usize::MAX {
            usize::MAX
        } else {
            (prev + l) as usize
        }
    }
}

} // verus!
