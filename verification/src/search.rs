//! The proof-of-work search.
//!
//! A nonce is good for a block when the Blake2b hash of the nonce followed by the block, read as
//! a number, reaches a threshold. The nonces are dealt out to lanes, one for each thread: lane
//! `i` of `n` starts `i` after a random base and goes on in strides of `n`, so that together the
//! lanes try every nonce once before any is tried again.

use crate::base16::{
    bytes_of_hex, decode, encode, hex_of_bytes, is_hex_text, law_hex_digits, law_hex_round_trip,
};
use crate::difficulty::{difficulty_of, law_difficulty_round_trip};
use crate::endian::{
    be_bytes, law_le_round_trip, le_bytes, le_u64, le_value, lemma_le_bytes_len, u64_be, u64_le,
};
use vstd::arithmetic::div_mod::{
    lemma_add_mod_noop, lemma_fundamental_div_mod, lemma_fundamental_div_mod_converse,
    lemma_small_mod,
};
use vstd::prelude::*;

verus! {

/// The length of the hash, in bytes.
pub const WORK_HASH_LENGTH: usize = 8;

/// How many nonces a lane tries between two looks at whether to stop.
pub const BATCH: u64 = 10_000;

/// The Blake2b hash of `input`, `length` bytes long, without key, salt or personalization.
pub uninterp spec fn blake2b_digest(length: nat, input: Seq<u8>) -> Seq<u8>;

/// Calls `hash` on the default `blake2b_simd::Params` with `hash_length` set, which panics on a
/// length outside the bounds given here. The hash is as long as was asked for, and depends on
/// the length and the input alone.
#[verifier::external_body]
fn blake2b(length: usize, input: &[u8]) -> (digest: Vec<u8>)
    requires
        1 <= length <= 64,
    ensures
        digest@ == blake2b_digest(length as nat, input@),
        digest@.len() == length,
{
    blake2b_simd::Params::new().hash_length(length).hash(input).as_bytes().to_vec()
}

/// Calls `rand::random`. Any number may come back; a system that has no randomness to give makes
/// it panic.
#[verifier::external_body]
fn random_nonce() -> (nonce: u64) {
    rand::random()
}

/// What is hashed for a nonce: its eight bytes, least significant first, then the block.
pub open spec fn hash_input(block: Seq<u8>, nonce: u64) -> Seq<u8> {
    le_bytes(nonce as nat, 8) + block
}

/// The hash of a nonce and a block, read as a number, least significant byte first.
pub open spec fn work_value(block: Seq<u8>, nonce: u64) -> nat {
    le_value(blake2b_digest(WORK_HASH_LENGTH as nat, hash_input(block, nonce)))
}

/// A nonce that is good for a block at a threshold.
pub open spec fn meets(block: Seq<u8>, nonce: u64, threshold: u64) -> bool {
    work_value(block, nonce) >= threshold
}

/// The nonce that is tried after `k` strides from `start`; past the largest it begins anew at
/// zero.
pub open spec fn attempt(start: u64, stride: u64, k: nat) -> u64 {
    ((start + k * stride) % 0x1_0000_0000_0000_0000) as u64
}

/// None of the first `count` nonces from `start` is good.
pub open spec fn refuted(
    block: Seq<u8>,
    threshold: u64,
    start: u64,
    stride: u64,
    count: nat,
) -> bool {
    forall|j: nat| j < count ==> !meets(block, #[trigger] attempt(start, stride, j), threshold)
}

/// `nonce` is the first good one among the first `count` from `start`.
pub open spec fn first_good(
    block: Seq<u8>,
    threshold: u64,
    start: u64,
    stride: u64,
    count: nat,
    nonce: u64,
) -> bool {
    exists|k: nat|
        k < count && nonce == #[trigger] attempt(start, stride, k) && refuted(
            block,
            threshold,
            start,
            stride,
            k,
        ) && meets(block, nonce, threshold)
}

/// The bytes that are hashed for a nonce and a block.
pub fn work_input(block: &Vec<u8>, nonce: u64) -> (input: Vec<u8>)
    ensures
        input@ == hash_input(block@, nonce),
{
    let mut input: Vec<u8> = u64_le(nonce);
    input.extend_from_slice(block.as_slice());
    assert(input@ =~= hash_input(block@, nonce));
    input
}

/// Whether a hash, read as a number, reaches the threshold.
pub fn reaches(digest: &[u8], threshold: u64) -> (good: bool)
    requires
        digest@.len() == WORK_HASH_LENGTH,
    ensures
        good == (le_value(digest@) >= threshold),
{
    le_u64(digest) >= threshold
}

/// Whether a nonce is good for a block at a threshold.
pub fn is_good(block: &Vec<u8>, nonce: u64, threshold: u64) -> (good: bool)
    ensures
        good == meets(block@, nonce, threshold),
        good == (le_value(blake2b_digest(8, le_bytes(nonce as nat, 8) + block@)) >= threshold),
{
    let input: Vec<u8> = work_input(block, nonce);
    let digest: Vec<u8> = blake2b(WORK_HASH_LENGTH, input.as_slice());
    reaches(digest.as_slice(), threshold)
}

/// A nonce that has been found good for a block at a threshold. There is no other way to get
/// one than to find it.
pub struct Solution {
    hash: String,
    threshold: u64,
    nonce: u64,
}

impl Solution {
    /// The block that the nonce is good for, in hexadecimal.
    pub closed spec fn hash(self) -> Seq<char> {
        self.hash@
    }

    /// The threshold that is reached.
    pub closed spec fn threshold(self) -> u64 {
        self.threshold
    }

    /// The nonce.
    pub closed spec fn nonce(self) -> u64 {
        self.nonce
    }

    /// The nonce is good for the block.
    pub open spec fn is_valid(self) -> bool {
        &&& is_hex_text(self.hash())
        &&& meets(bytes_of_hex(self.hash()), self.nonce(), self.threshold())
    }

    #[verifier::type_invariant]
    spec fn type_inv(self) -> bool {
        self.is_valid()
    }

    /// The block that the nonce is good for, in hexadecimal. A solution is always valid.
    pub fn hash_text(&self) -> (hash: &str)
        ensures
            hash@ == self.hash(),
            self.is_valid(),
    {
        proof {
            use_type_invariant(self);
        }
        self.hash.as_str()
    }
}

/// Where a lane stands.
pub struct LaneView {
    /// The block that is worked on, in hexadecimal.
    pub hash: Seq<char>,
    /// The threshold to reach.
    pub threshold: u64,
    /// The nonce to try next.
    pub nonce: u64,
    /// The distance from one nonce to the next.
    pub stride: u64,
}

impl LaneView {
    /// The block, as bytes.
    pub open spec fn block(self) -> Seq<u8> {
        bytes_of_hex(self.hash)
    }

    /// None of the next `count` nonces is good.
    pub open spec fn refutes(self, count: nat) -> bool {
        refuted(self.block(), self.threshold, self.nonce, self.stride, count)
    }

    /// `nonce` is the first good one among the next `count`.
    pub open spec fn finds(self, count: nat, nonce: u64) -> bool {
        first_good(self.block(), self.threshold, self.nonce, self.stride, count, nonce)
    }

    /// What a step does.
    pub open spec fn steps(
        self,
        cancelled: bool,
        found: bool,
        next: LaneView,
        outcome: Step,
    ) -> bool {
        match outcome {
            Step::Stopped => (cancelled || found) && next == self,
            Step::Running => {
                &&& !cancelled && !found
                &&& self.refutes(BATCH as nat)
                &&& next == (LaneView {
                    nonce: attempt(self.nonce, self.stride, BATCH as nat),
                    ..self
                })
            },
            Step::Found(solution) => {
                &&& !cancelled && !found
                &&& self.finds(BATCH as nat, solution.nonce())
                &&& solution.hash() == self.hash
                &&& solution.threshold() == self.threshold
                &&& next == (LaneView { nonce: solution.nonce(), ..self })
            },
        }
    }
}

/// One thread's share of the search.
pub struct Lane {
    hash: String,
    block: Vec<u8>,
    threshold: u64,
    nonce: u64,
    stride: u64,
}

impl View for Lane {
    type V = LaneView;

    closed spec fn view(&self) -> LaneView {
        LaneView {
            hash: self.hash@,
            threshold: self.threshold,
            nonce: self.nonce,
            stride: self.stride,
        }
    }
}

/// What came of one step of a lane.
pub enum Step {
    /// The search has ended elsewhere, or it was called off.
    Stopped,
    /// A good nonce was found.
    Found(Solution),
    /// None was found yet.
    Running,
}

/// One stride further.
proof fn lemma_attempt_step(start: u64, stride: u64, k: nat)
    ensures
        attempt(start, stride, 0) == start,
        attempt(start, stride, k + 1) == (attempt(start, stride, k) + stride)
            % 0x1_0000_0000_0000_0000,
{
    let m: int = 0x1_0000_0000_0000_0000;
    let a: int = start + k * stride;
    assert((k + 1) * stride == k * stride + stride) by (nonlinear_arith);
    assert(0 * stride == 0) by (nonlinear_arith);
    lemma_add_mod_noop(a, stride as int, m);
    lemma_small_mod(stride as nat, m as nat);
}

/// Going on from the nonce after `k` strides.
proof fn lemma_attempt_from(start: u64, stride: u64, k: nat, j: nat)
    ensures
        attempt(attempt(start, stride, k), stride, j) == attempt(start, stride, k + j),
{
    let m: int = 0x1_0000_0000_0000_0000;
    let a: int = start + k * stride;
    let b: int = j * stride;
    assert((k + j) * stride == k * stride + j * stride) by (nonlinear_arith);
    assert(j * stride >= 0) by (nonlinear_arith);
    assert(k * stride >= 0) by (nonlinear_arith);
    lemma_add_mod_noop(a, b, m);
    lemma_add_mod_noop(a % m, b, m);
    assert((a % m) % m == a % m);
}

impl Lane {
    #[verifier::type_invariant]
    spec fn type_inv(self) -> bool {
        &&& is_hex_text(self.hash@)
        &&& self.block@ == bytes_of_hex(self.hash@)
    }

    /// Looks at the two signals, and stops when either is set: `cancelled` that the job was
    /// called off, `found` that some lane has found a nonce. Otherwise tries up to a batch of
    /// nonces, and stops at the first good one.
    pub fn step(&mut self, cancelled: bool, found: bool) -> (outcome: Step)
        ensures
            old(self)@.steps(cancelled, found, final(self)@, outcome),
            outcome is Stopped <==> (cancelled || found),
            outcome is Found <==> !cancelled && !found && exists|k: nat|
                k < 10_000 && le_value(
                    blake2b_digest(
                        8,
                        le_bytes(
                            #[trigger] attempt(old(self)@.nonce, old(self)@.stride, k) as nat,
                            8,
                        ) + bytes_of_hex(old(self)@.hash),
                    ),
                ) >= old(self)@.threshold,
            outcome is Stopped ==> final(self)@ == old(self)@,
            outcome is Running ==> {
                &&& old(self)@.refutes(BATCH as nat)
                &&& final(self)@ == (LaneView {
                    nonce: attempt(old(self)@.nonce, old(self)@.stride, BATCH as nat),
                    ..old(self)@
                })
            },
            outcome matches Step::Found(solution) ==> {
                &&& old(self)@.finds(BATCH as nat, solution.nonce())
                &&& solution.hash() == old(self)@.hash
                &&& solution.threshold() == old(self)@.threshold
                &&& solution.is_valid()
                &&& final(self)@ == (LaneView { nonce: solution.nonce(), ..old(self)@ })
            },
    {
        if cancelled || found {
            return Step::Stopped;
        }
        proof {
            use_type_invariant(&*self);
            lemma_attempt_step(self.nonce, self.stride, 0);
        }
        let ghost start = self@;
        let mut tried: u64 = 0;
        while tried < BATCH
            invariant
                tried <= BATCH,
                !cancelled && !found,
                start == old(self)@,
                is_hex_text(self.hash@),
                self.block@ == start.block(),
                self@ == (LaneView {
                    nonce: attempt(start.nonce, start.stride, tried as nat),
                    ..start
                }),
                start.refutes(tried as nat),
            decreases BATCH - tried,
        {
            if is_good(&self.block, self.nonce, self.threshold) {
                return Step::Found(
                    Solution {
                        hash: self.hash.clone(),
                        threshold: self.threshold,
                        nonce: self.nonce,
                    },
                );
            }
            proof {
                lemma_attempt_step(start.nonce, start.stride, tried as nat);
            }
            self.nonce = self.nonce.wrapping_add(self.stride);
            tried = tried + 1;
        }
        Step::Running
    }
}

/// The `n` lanes of a search for the block `hash` that starts at `base`.
pub open spec fn are_lanes(
    lanes: Seq<Lane>,
    hash: Seq<char>,
    threshold: u64,
    base: u64,
    n: nat,
) -> bool {
    &&& lanes.len() == n
    &&& forall|i: int|
        0 <= i < n ==> (#[trigger] lanes[i])@ == (LaneView {
            hash,
            threshold,
            nonce: attempt(base, 1, i as nat),
            stride: n as u64,
        })
}

/// The `n` lanes of a search for the block `hash`, wherever it starts.
pub open spec fn are_lanes_from_some_base(
    lanes: Seq<Lane>,
    hash: Seq<char>,
    threshold: u64,
    n: nat,
) -> bool {
    exists|base: u64| are_lanes(lanes, hash, threshold, base, n)
}

/// Deals the search for a block, given in hexadecimal, out to `num_threads` lanes, from `base`
/// on. Text that is not hexadecimal gives no search.
pub fn lanes(hash_hex: &str, threshold: u64, base: u64, num_threads: usize) -> (out: Option<
    Vec<Lane>,
>)
    ensures
        out is Some <==> is_hex_text(hash_hex@),
        out matches Some(dealt) ==> are_lanes(
            dealt@,
            hash_hex@,
            threshold,
            base,
            num_threads as nat,
        ),
{
    let block: Vec<u8> = match decode(hash_hex) {
        Ok(block) => block,
        Err(_) => {
            return None;
        },
    };
    let mut out: Vec<Lane> = Vec::new();
    let mut i: usize = 0;
    while i < num_threads
        invariant
            i <= num_threads,
            out@.len() == i,
            is_hex_text(hash_hex@),
            block@ == bytes_of_hex(hash_hex@),
            forall|j: int|
                0 <= j < i ==> (#[trigger] out@[j])@ == (LaneView {
                    hash: hash_hex@,
                    threshold,
                    nonce: attempt(base, 1, j as nat),
                    stride: num_threads as u64,
                }),
        decreases num_threads - i,
    {
        let copy: Vec<u8> = block.clone();
        assert(copy@ =~= block@);
        let lane: Lane = Lane {
            hash: hash_hex.to_string(),
            block: copy,
            threshold,
            nonce: base.wrapping_add(i as u64),
            stride: num_threads as u64,
        };
        out.push(lane);
        i = i + 1;
    }
    Some(out)
}

/// Sets the search for a block, given in hexadecimal, up for `num_threads` threads, from a
/// random base on. Text that is not hexadecimal gives no search.
pub fn begin_search(hash_hex: &str, threshold: u64, num_threads: usize) -> (out: Option<Vec<Lane>>)
    ensures
        out is Some <==> is_hex_text(hash_hex@),
        out matches Some(dealt) ==> are_lanes_from_some_base(
            dealt@,
            hash_hex@,
            threshold,
            num_threads as nat,
        ),
{
    let base: u64 = random_nonce();
    lanes(hash_hex, threshold, base, num_threads)
}

/// A nonce as it is handed in: sixteen lower-case hexadecimal digits, most significant first.
pub open spec fn nonce_text(nonce: u64) -> Seq<char> {
    hex_of_bytes(be_bytes(nonce))
}

/// The work that comes of a search: the nonce in hexadecimal, or empty text where none was
/// found.
pub open spec fn work_of(outcome: Option<Solution>) -> Seq<char> {
    match outcome {
        Some(solution) => nonce_text(solution.nonce()),
        None => seq![],
    }
}

/// The work that comes of a search.
pub fn work_string(outcome: &Option<Solution>) -> (work: String)
    ensures
        work@ == work_of(*outcome),
{
    match outcome {
        Some(solution) => {
            let bytes: Vec<u8> = u64_be(solution.nonce);
            encode(bytes.as_slice())
        },
        None => String::new(),
    }
}

/// Refuting one run of nonces and then the run that follows refutes both together: batches add
/// up, and nothing between them is skipped.
pub proof fn law_batches_add_up(
    block: Seq<u8>,
    threshold: u64,
    start: u64,
    stride: u64,
    first: nat,
    second: nat,
)
    requires
        refuted(block, threshold, start, stride, first),
        refuted(block, threshold, attempt(start, stride, first), stride, second),
    ensures
        refuted(block, threshold, start, stride, first + second),
{
    assert forall|j: nat| j < first + second implies !meets(
        block,
        #[trigger] attempt(start, stride, j),
        threshold,
    ) by {
        if j >= first {
            let k = (j - first) as nat;
            lemma_attempt_from(start, stride, first, k);
            assert(!meets(block, attempt(attempt(start, stride, first), stride, k), threshold));
        }
    }
}

/// What is found after runs of nonces without a good one is the first good nonce of all: a lane
/// that goes on from batch to batch passes none over.
pub proof fn law_first_find_is_first_of_all(
    block: Seq<u8>,
    threshold: u64,
    start: u64,
    stride: u64,
    before: nat,
    count: nat,
    nonce: u64,
)
    requires
        refuted(block, threshold, start, stride, before),
        first_good(block, threshold, attempt(start, stride, before), stride, count, nonce),
    ensures
        first_good(block, threshold, start, stride, before + count, nonce),
{
    let from = attempt(start, stride, before);
    let k = choose|k: nat|
        k < count && nonce == #[trigger] attempt(from, stride, k) && refuted(
            block,
            threshold,
            from,
            stride,
            k,
        ) && meets(block, nonce, threshold);
    law_batches_add_up(block, threshold, start, stride, before, k);
    lemma_attempt_from(start, stride, before, k);
    assert(nonce == attempt(start, stride, before + k));
}

/// Where lane `i` of `n` is after `k` strides.
proof fn lemma_lane_position(base: u64, i: nat, n: u64, k: nat)
    requires
        i < n,
    ensures
        attempt(attempt(base, 1, i), n, k) == attempt(base, 1, (k * n + i) as nat),
{
    let m: int = 0x1_0000_0000_0000_0000;
    let a: int = base + i;
    let b: int = k * n;
    assert(k * n >= 0) by (nonlinear_arith);
    lemma_add_mod_noop(a, b, m);
    lemma_add_mod_noop(a % m, b, m);
    assert((a % m) % m == a % m);
}

/// Walking on one by one, a nonce comes back only after all of them.
proof fn lemma_walk_is_injective(base: u64, p: nat, q: nat)
    requires
        p < 0x1_0000_0000_0000_0000,
        q < 0x1_0000_0000_0000_0000,
        p != q,
    ensures
        attempt(base, 1, p) != attempt(base, 1, q),
{
}

/// No nonce is tried twice: as long as the lanes together have not gone once around, two
/// different tries are of different nonces, in one lane or in two.
pub proof fn law_no_nonce_twice(base: u64, n: u64, i: nat, k: nat, j: nat, l: nat)
    requires
        i < n,
        j < n,
        k * n + i < 0x1_0000_0000_0000_0000,
        l * n + j < 0x1_0000_0000_0000_0000,
        i != j || k != l,
    ensures
        attempt(attempt(base, 1, i), n, k) != attempt(attempt(base, 1, j), n, l),
{
    let p: nat = (k * n + i) as nat;
    let q: nat = (l * n + j) as nat;
    assert(attempt(attempt(base, 1, i), n, k) == attempt(base, 1, p)) by {
        lemma_lane_position(base, i, n, k);
    }
    assert(attempt(attempt(base, 1, j), n, l) == attempt(base, 1, q)) by {
        lemma_lane_position(base, j, n, l);
    }
    assert(p != q) by {
        if p == q {
            lemma_fundamental_div_mod_converse(p as int, n as int, k as int, i as int);
            lemma_fundamental_div_mod_converse(p as int, n as int, l as int, j as int);
        }
    }
    lemma_walk_is_injective(base, p, q);
}

/// No nonce is left out: every nonce is tried by some lane, before the lanes together have
/// gone once around.
pub proof fn law_every_nonce_is_tried(base: u64, n: u64, nonce: u64)
    requires
        n > 0,
    ensures
        exists|i: nat, k: nat|
            i < n && k * n + i < 0x1_0000_0000_0000_0000 && #[trigger] attempt(
                attempt(base, 1, i),
                n,
                k,
            ) == nonce,
{
    let m: int = 0x1_0000_0000_0000_0000;
    let p: nat = ((nonce - base) % m) as nat;
    let i: nat = p % (n as nat);
    let k: nat = p / (n as nat);
    lemma_fundamental_div_mod(p as int, n as int);
    assert(k * n + i == p) by (nonlinear_arith)
        requires
            p == n * k + i,
    ;
    lemma_lane_position(base, i, n, k);
    assert(attempt(base, 1, p) == nonce);
    assert(attempt(attempt(base, 1, i), n, k) == nonce);
}

/// The work of a nonce is sixteen hexadecimal digits, which spell the nonce's bytes; so it is
/// never empty, and no two nonces share one.
pub proof fn law_work_names_its_nonce(nonce: u64, other: u64)
    ensures
        nonce_text(nonce).len() == 16,
        is_hex_text(nonce_text(nonce)),
        bytes_of_hex(nonce_text(nonce)) == be_bytes(nonce),
        le_value(be_bytes(nonce).reverse()) == nonce,
        nonce_text(nonce) == nonce_text(other) ==> nonce == other,
{
    lemma_le_bytes_len(nonce as nat, 8);
    lemma_le_bytes_len(other as nat, 8);
    law_hex_round_trip(be_bytes(nonce));
    law_hex_round_trip(be_bytes(other));
    law_le_round_trip(nonce);
    law_le_round_trip(other);
    assert(be_bytes(nonce).reverse() =~= le_bytes(nonce as nat, 8));
    assert(be_bytes(other).reverse() =~= le_bytes(other as nat, 8));
}

/// A nonce is good for a block at a threshold exactly when the eight-byte Blake2b hash of its
/// eight bytes, least significant first, and the block, read least significant byte first, is at
/// least the threshold, whatever the threshold is; so it is good at every lower one too.
pub proof fn law_good_is_reaching_the_threshold(
    block: Seq<u8>,
    nonce: u64,
    threshold: u64,
    lower: u64,
)
    ensures
        meets(block, nonce, threshold) <==> le_value(
            blake2b_digest(8, le_bytes(nonce as nat, 8) + block),
        ) >= threshold,
        meets(block, nonce, threshold) && lower <= threshold ==> meets(block, nonce, lower),
        meets(block, nonce, 0),
{
}

/// A solution holds a nonce whose hash with its block reaches its threshold, and anything that
/// does so counts.
pub proof fn law_solutions_reach_their_threshold(solution: Solution)
    ensures
        solution.is_valid() <==> is_hex_text(solution.hash()) && le_value(
            blake2b_digest(
                8,
                le_bytes(solution.nonce() as nat, 8) + bytes_of_hex(solution.hash()),
            ),
        ) >= solution.threshold(),
{
}

/// A walk begins at its start and goes on by its stride; where that leads past the largest nonce,
/// it goes on from zero.
pub proof fn law_walk_goes_round(start: u64, stride: u64, k: nat)
    ensures
        attempt(start, stride, 0) == start,
        attempt(start, stride, k + 1) == (if attempt(start, stride, k) + stride <= u64::MAX {
            attempt(start, stride, k) + stride
        } else {
            attempt(start, stride, k) + stride - 0x1_0000_0000_0000_0000
        }),
{
    lemma_attempt_step(start, stride, k);
}

/// A run of nonces without a good one is one in which every single nonce falls short of the
/// lane's threshold for the lane's block.
pub proof fn law_refuted_is_each_falls_short(lane: LaneView, count: nat)
    ensures
        lane.refutes(count) <==> forall|j: nat|
            j < count ==> le_value(
                blake2b_digest(
                    8,
                    le_bytes(#[trigger] attempt(lane.nonce, lane.stride, j) as nat, 8)
                        + bytes_of_hex(lane.hash),
                ),
            ) < lane.threshold,
{
    if lane.refutes(count) {
        assert forall|j: nat| j < count implies le_value(
            blake2b_digest(
                8,
                le_bytes(#[trigger] attempt(lane.nonce, lane.stride, j) as nat, 8) + bytes_of_hex(
                    lane.hash,
                ),
            ),
        ) < lane.threshold by {
            assert(!meets(lane.block(), attempt(lane.nonce, lane.stride, j), lane.threshold));
        }
    }
}

/// A find is a nonce of the run that reaches the threshold, with none before it that does; and
/// where there is such a nonce, it is the find.
pub proof fn law_find_is_the_first_that_reaches(lane: LaneView, count: nat, nonce: u64, k: nat)
    ensures
        lane.finds(count, nonce) ==> le_value(
            blake2b_digest(8, le_bytes(nonce as nat, 8) + bytes_of_hex(lane.hash)),
        ) >= lane.threshold && exists|p: nat|
            p < count && nonce == #[trigger] attempt(lane.nonce, lane.stride, p) && lane.refutes(p),
        k < count && lane.refutes(k) && le_value(
            blake2b_digest(
                8,
                le_bytes(attempt(lane.nonce, lane.stride, k) as nat, 8) + bytes_of_hex(lane.hash),
            ),
        ) >= lane.threshold ==> lane.finds(count, attempt(lane.nonce, lane.stride, k)),
{
}

/// A run either holds no good nonce, or there is one that it finds, and no other.
pub proof fn law_run_finds_or_refutes(lane: LaneView, count: nat, nonce: u64, other: u64)
    ensures
        lane.refutes(count) <==> !exists|found: u64| lane.finds(count, found),
        lane.finds(count, nonce) && lane.finds(count, other) ==> nonce == other,
    decreases count,
{
    if lane.finds(count, nonce) && lane.finds(count, other) {
        let p = choose|p: nat|
            p < count && nonce == #[trigger] attempt(lane.nonce, lane.stride, p) && lane.refutes(p)
                && meets(lane.block(), nonce, lane.threshold);
        let q = choose|q: nat|
            q < count && other == #[trigger] attempt(lane.nonce, lane.stride, q) && lane.refutes(q)
                && meets(lane.block(), other, lane.threshold);
        assert(p == q);
    }
    if count > 0 {
        let last = (count - 1) as nat;
        law_run_finds_or_refutes(lane, last, nonce, other);
        if lane.refutes(last) {
            let next = attempt(lane.nonce, lane.stride, last);
            if meets(lane.block(), next, lane.threshold) {
                assert(lane.finds(count, next));
            } else {
                assert forall|j: nat| j < count implies !meets(
                    lane.block(),
                    #[trigger] attempt(lane.nonce, lane.stride, j),
                    lane.threshold,
                ) by {
                    assert(j < last || j == last);
                }
            }
        } else {
            let found = choose|found: u64| lane.finds(last, found);
            assert(lane.finds(count, found));
        }
    }
}

/// The lanes of a search all work on its block at its threshold, and share the nonces out: each
/// nonce is tried by some lane before the lanes together have gone once around, and two
/// different tries until then are of different nonces.
pub proof fn law_lanes_share_the_nonces_out(
    dealt: Seq<Lane>,
    hash: Seq<char>,
    threshold: u64,
    n: u64,
    nonce: u64,
    i: int,
    k: nat,
    j: int,
    l: nat,
)
    requires
        are_lanes_from_some_base(dealt, hash, threshold, n as nat),
        0 <= i < n,
        0 <= j < n,
    ensures
        dealt.len() == n,
        dealt[i]@.hash == hash,
        dealt[i]@.threshold == threshold,
        exists|p: int, q: nat|
            0 <= p < n && q * n + p < 0x1_0000_0000_0000_0000 && #[trigger] attempt(
                dealt[p]@.nonce,
                dealt[p]@.stride,
                q,
            ) == nonce,
        k * n + i < 0x1_0000_0000_0000_0000 && l * n + j < 0x1_0000_0000_0000_0000 && (i != j || k
            != l) ==> attempt(dealt[i]@.nonce, dealt[i]@.stride, k) != attempt(
            dealt[j]@.nonce,
            dealt[j]@.stride,
            l,
        ),
{
    let base = choose|base: u64| are_lanes(dealt, hash, threshold, base, n as nat);
    law_every_nonce_is_tried(base, n, nonce);
    let (p, q) = choose|p: nat, q: nat|
        p < n && q * n + p < 0x1_0000_0000_0000_0000 && #[trigger] attempt(
            attempt(base, 1, p),
            n,
            q,
        ) == nonce;
    assert(attempt(dealt[p as int]@.nonce, dealt[p as int]@.stride, q) == nonce);
    if k * n + i < 0x1_0000_0000_0000_0000 && l * n + j < 0x1_0000_0000_0000_0000 && (i != j || k
        != l) {
        law_no_nonce_twice(base, n, i as nat, k, j as nat, l);
    }
}

/// There are as many lanes as were asked for. Lane `i` begins `i` after the base, or as far after
/// zero as that leads past the largest nonce, and all lanes stride as far as there are lanes.
pub proof fn law_lanes_begin_side_by_side(
    dealt: Seq<Lane>,
    hash: Seq<char>,
    threshold: u64,
    base: u64,
    n: u64,
    i: int,
)
    requires
        are_lanes(dealt, hash, threshold, base, n as nat),
    ensures
        dealt.len() == n,
        0 <= i < n ==> dealt[i]@.stride == n,
        0 <= i < n ==> dealt[i]@.nonce == (if base + i <= u64::MAX {
            base + i
        } else {
            base + i - 0x1_0000_0000_0000_0000
        }),
{
}

/// A search misses nothing: if any nonce at all is good for the block, then some lane does not
/// come to the end of its nonces without a find.
pub proof fn law_search_misses_nothing(
    dealt: Seq<Lane>,
    hash: Seq<char>,
    threshold: u64,
    n: u64,
    nonce: u64,
)
    requires
        are_lanes_from_some_base(dealt, hash, threshold, n as nat),
        n > 0,
        le_value(blake2b_digest(8, le_bytes(nonce as nat, 8) + bytes_of_hex(hash))) >= threshold,
    ensures
        exists|p: int|
            0 <= p < n && !(#[trigger] dealt[p])@.refutes(0x1_0000_0000_0000_0000),
{
    law_lanes_share_the_nonces_out(dealt, hash, threshold, n, nonce, 0, 0, 0, 0);
    let (p, q) = choose|p: int, q: nat|
        0 <= p < n && q * n + p < 0x1_0000_0000_0000_0000 && #[trigger] attempt(
            dealt[p]@.nonce,
            dealt[p]@.stride,
            q,
        ) == nonce;
    assert(q < 0x1_0000_0000_0000_0000) by (nonlinear_arith)
        requires
            q * n + p < 0x1_0000_0000_0000_0000,
            n > 0,
            p >= 0,
    ;
    law_lanes_share_the_nonces_out(dealt, hash, threshold, n, nonce, p, 0, p, 0);
    assert(meets(dealt[p]@.block(), nonce, dealt[p]@.threshold));
    assert(!dealt[p]@.refutes(0x1_0000_0000_0000_0000));
}

/// The work of a search is the sixteen-digit hexadecimal numeral of the nonce that was found, in
/// lower case, and empty where none was.
pub proof fn law_work_is_a_numeral(solution: Solution, i: int)
    requires
        0 <= i < 16,
    ensures
        work_of(None) == Seq::<char>::empty(),
        work_of(Some(solution)).len() == 16,
        "0123456789abcdef"@.contains(work_of(Some(solution))[i]),
        difficulty_of(work_of(Some(solution))) == Some(solution.nonce()),
{
    let nonce = solution.nonce();
    law_difficulty_round_trip(nonce);
    lemma_le_bytes_len(nonce as nat, 8);
    reveal_strlit("0123456789abcdef");
    let b = be_bytes(nonce)[i / 2] as int;
    law_hex_digits(b / 16, '0');
    law_hex_digits(b % 16, '0');
    if i % 2 == 0 {
        assert(work_of(Some(solution))[i] == "0123456789abcdef"@[b / 16]);
    } else {
        assert(work_of(Some(solution))[i] == "0123456789abcdef"@[b % 16]);
    }
}

/// A step does nothing once the search has ended or was called off. Otherwise it ends with the
/// first of the next ten thousand nonces whose hash with the lane's block reaches the lane's
/// threshold, or else leaves all of them behind.
pub proof fn law_what_a_step_does(
    lane: LaneView,
    cancelled: bool,
    found: bool,
    next: LaneView,
    outcome: Step,
    k: nat,
)
    requires
        lane.steps(cancelled, found, next, outcome),
    ensures
        outcome is Stopped <==> (cancelled || found),
        outcome is Stopped ==> next == lane,
        next.hash == lane.hash && next.threshold == lane.threshold && next.stride == lane.stride,
        outcome is Running ==> next.nonce == attempt(lane.nonce, lane.stride, 10_000),
        outcome is Running && k < 10_000 ==> le_value(
            blake2b_digest(
                8,
                le_bytes(attempt(lane.nonce, lane.stride, k) as nat, 8) + bytes_of_hex(lane.hash),
            ),
        ) < lane.threshold,
        outcome matches Step::Found(solution) ==> {
            &&& solution.hash() == lane.hash
            &&& solution.threshold() == lane.threshold
            &&& next.nonce == solution.nonce()
            &&& le_value(
                blake2b_digest(
                    8,
                    le_bytes(solution.nonce() as nat, 8) + bytes_of_hex(lane.hash),
                ),
            ) >= lane.threshold
            &&& exists|p: nat|
                p < 10_000 && solution.nonce() == #[trigger] attempt(lane.nonce, lane.stride, p)
                    && lane.refutes(p)
        },
{
    if outcome is Running && k < 10_000 {
        assert(!meets(lane.block(), attempt(lane.nonce, lane.stride, k), lane.threshold));
    }
}

/// Steps follow on from each other: what a lane finds after a step without a find is the first
/// good nonce from where it stood before that step.
pub proof fn law_steps_follow_on(
    lane: LaneView,
    middle: LaneView,
    last: LaneView,
    first: Step,
    second: Step,
)
    requires
        lane.steps(false, false, middle, first),
        first is Running,
        middle.steps(false, false, last, second),
    ensures
        second is Running ==> lane.refutes(20_000) && last.nonce == attempt(
            lane.nonce,
            lane.stride,
            20_000,
        ),
        second matches Step::Found(solution) ==> lane.finds(20_000, solution.nonce()),
{
    if second is Running {
        law_batches_add_up(
            lane.block(),
            lane.threshold,
            lane.nonce,
            lane.stride,
            10_000,
            10_000,
        );
        lemma_attempt_from(lane.nonce, lane.stride, 10_000, 10_000);
    }
    if let Step::Found(solution) = second {
        law_first_find_is_first_of_all(
            lane.block(),
            lane.threshold,
            lane.nonce,
            lane.stride,
            10_000,
            10_000,
            solution.nonce(),
        );
    }
}

} // verus!
