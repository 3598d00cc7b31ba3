//! The nonce search: a challenge is turned into a checked search plan, whose
//! candidates are `prefix:nonce` texts hashed with SHA-256 and held to the
//! target by the ordering predicate. Workers split the nonces by residue
//! class; each runs the search step below on its own class.
use vstd::prelude::*;
use vstd::utf8::{encode_utf8, encode_scalar};
use vstd::arithmetic::div_mod::{lemma_fundamental_div_mod, lemma_fundamental_div_mod_converse};
use ring::digest::{digest, SHA256};
use crate::hex::{decode_hex, hex_decode, is_hex, MAX_HEX_CHARS};
use crate::predicate::{satisfies, verify_nonce};

verus! {

/// Length in bytes of a SHA-256 digest, and so of a well-formed target.
pub const DIGEST_LEN: usize = 32;

/// Longest prefix accepted, in characters; it keeps every candidate text well
/// within what the digest accepts.
pub const MAX_PREFIX_CHARS: u64 = 0x0100_0000_0000_0000;

/// Longest input the digest takes: its length in bits must fit in 64 bits.
pub const MAX_DIGEST_INPUT: u64 = 0x1fff_ffff_ffff_ffff;

/// The SHA-256 digest of a byte sequence.
pub uninterp spec fn sha256_of(data: Seq<u8>) -> Seq<u8>;

/// Relies on ring's `digest::digest` with `SHA256`: the digest of the bytes,
/// 32 bytes long. It panics only when the bit length overflows 64 bits.
#[verifier::external_body]
fn sha256(data: &[u8]) -> (r: Vec<u8>)
    requires
        data@.len() <= MAX_DIGEST_INPUT,
    ensures
        r@ == sha256_of(data@),
        r@.len() == DIGEST_LEN,
{
    digest(&SHA256, data).as_ref().to_vec()
}

/// The decimal digit character for a value below ten.
pub open spec fn digit_char(d: nat) -> char {
    (('0' as u8) + d) as char
}

/// The decimal text of a number, without leading zeros.
pub open spec fn decimal_chars(n: nat) -> Seq<char>
    decreases n,
{
    if n < 10 {
        seq![digit_char(n)]
    } else {
        decimal_chars(n / 10).push(digit_char(n % 10))
    }
}

/// Relies on std's `ToString` for `u64`, which goes through `Display`: the
/// decimal digits of the number, without sign or leading zeros.
#[verifier::external_body]
fn decimal_string(n: u64) -> (r: String)
    ensures
        r@ == decimal_chars(n as nat),
{
    n.to_string()
}

/// Relies on `num_cpus::get`, documented to return at least one.
#[verifier::external_body]
fn cpu_count() -> (r: usize)
    ensures
        r >= 1,
{
    num_cpus::get()
}

/// The number of workers to run: the available hardware parallelism, at
/// least one.
pub fn available_workers() -> (r: u64)
    ensures
        r >= 1,
{
    cpu_count() as u64
}

/// The text hashed for a nonce, which is also the solution token: the
/// prefix, a colon, the nonce in decimal.
pub open spec fn candidate_chars(prefix: Seq<char>, nonce: nat) -> Seq<char> {
    prefix + seq![':'] + decimal_chars(nonce)
}

/// The digest of the candidate text for a nonce, over its UTF-8 bytes.
pub open spec fn candidate_digest_of(prefix: Seq<char>, nonce: nat) -> Seq<u8> {
    sha256_of(encode_utf8(candidate_chars(prefix, nonce)))
}

/// The nonce solves the challenge `(prefix, target)`.
pub open spec fn solves(prefix: Seq<char>, target: Seq<u8>, nonce: nat) -> bool {
    satisfies(candidate_digest_of(prefix, nonce), target)
}

/// The `k`-th nonce of the residue class that starts at `start`.
pub open spec fn stride_nonce(start: int, stride: int, k: int) -> int {
    start + k * stride
}

/// The challenge as the service hands it out.
pub struct ChallengeResponse {
    pub prefix: String,
    pub target: String,
}

/// Why a challenge cannot be searched.
#[derive(Debug, Clone, Copy, PartialEq, Eq, Structural)]
pub enum ChallengeError {
    /// The target is not uppercase hexadecimal of even length.
    Decode,
    /// The target does not decode to the digest's length.
    LengthMismatch,
    /// The prefix is longer than `MAX_PREFIX_CHARS` characters.
    PrefixTooLong,
}

/// What one step of the search found.
#[derive(Debug, Clone, Copy, PartialEq, Eq, Structural)]
pub enum SearchStep {
    /// This nonce solves the challenge.
    Found(u64),
    /// No nonce of the step solved it; the class goes on at this nonce.
    Continue(u64),
    /// No nonce of the step solved it, and the class runs past `u64::MAX`.
    Exhausted,
}

/// A challenge ready to be searched: its prefix and its decoded target.
pub struct SearchPlan {
    prefix: String,
    target: Vec<u8>,
}

proof fn lemma_utf8_len(s: Seq<char>)
    ensures
        encode_utf8(s).len() <= 4 * s.len(),
    decreases s.len(),
{
    if s.len() > 0 {
        assert(encode_scalar(s[0] as u32).len() <= 4);
        lemma_utf8_len(s.drop_first());
    }
}

spec fn pow10(k: nat) -> nat
    decreases k,
{
    if k == 0 {
        1
    } else {
        10 * pow10((k - 1) as nat)
    }
}

proof fn lemma_decimal_len(n: nat, k: nat)
    requires
        k >= 1,
        n < pow10(k),
    ensures
        decimal_chars(n).len() <= k,
    decreases n,
{
    if n >= 10 {
        let p = pow10((k - 1) as nat);
        if k == 1 {
            assert(pow10(0) == 1);
        }
        assert(k >= 2);
        assert(n / 10 < p) by (nonlinear_arith)
            requires
                n < 10 * p,
        ;
        lemma_decimal_len(n / 10, (k - 1) as nat);
    }
}

proof fn lemma_candidate_fits(prefix: Seq<char>, nonce: u64)
    requires
        prefix.len() <= MAX_PREFIX_CHARS,
    ensures
        encode_utf8(candidate_chars(prefix, nonce as nat)).len() <= MAX_DIGEST_INPUT,
{
    reveal_with_fuel(pow10, 21);
    lemma_decimal_len(nonce as nat, 20);
    lemma_utf8_len(candidate_chars(prefix, nonce as nat));
}

impl SearchPlan {
    /// The prefix of the challenge.
    pub closed spec fn prefix_view(&self) -> Seq<char> {
        self.prefix@
    }

    /// The decoded target.
    pub closed spec fn target_view(&self) -> Seq<u8> {
        self.target@
    }

    /// The target has the digest's length and the prefix is within bounds.
    pub closed spec fn wf(&self) -> bool {
        &&& self.target@.len() == DIGEST_LEN
        &&& self.prefix@.len() <= MAX_PREFIX_CHARS
    }

    /// Decodes the target and checks the challenge; the target is decoded
    /// first, so a malformed one is reported before anything else.
    pub fn new(prefix: &str, target_hex: &str) -> (r: Result<SearchPlan, ChallengeError>)
        ensures
            r matches Ok(p) ==> p.wf() && p.prefix_view() == prefix@ && p.target_view()
                == hex_decode(target_hex@),
            r matches Err(ChallengeError::Decode) <==> !(target_hex@.len() <= MAX_HEX_CHARS
                && is_hex(target_hex@)),
            r matches Err(ChallengeError::LengthMismatch) <==> target_hex@.len() <= MAX_HEX_CHARS
                && is_hex(target_hex@) && hex_decode(target_hex@).len() != DIGEST_LEN,
            r matches Err(ChallengeError::PrefixTooLong) <==> target_hex@.len() <= MAX_HEX_CHARS
                && is_hex(target_hex@) && hex_decode(target_hex@).len() == DIGEST_LEN
                && prefix@.len() > MAX_PREFIX_CHARS,
    {
        let target = match decode_hex(target_hex) {
            Some(t) => t,
            None => return Err(ChallengeError::Decode),
        };
        if target.len() != DIGEST_LEN {
            return Err(ChallengeError::LengthMismatch);
        }
        if prefix.unicode_len() as u64 > MAX_PREFIX_CHARS {
            return Err(ChallengeError::PrefixTooLong);
        }
        Ok(SearchPlan { prefix: String::from_str(prefix), target })
    }

    /// The plan for a challenge as the service hands it out.
    pub fn from_challenge(c: &ChallengeResponse) -> (r: Result<SearchPlan, ChallengeError>)
        ensures
            r matches Ok(p) ==> p.wf() && p.prefix_view() == c.prefix@ && p.target_view()
                == hex_decode(c.target@),
            r matches Err(ChallengeError::Decode) <==> !(c.target@.len() <= MAX_HEX_CHARS
                && is_hex(c.target@)),
            r matches Err(ChallengeError::LengthMismatch) <==> c.target@.len() <= MAX_HEX_CHARS
                && is_hex(c.target@) && hex_decode(c.target@).len() != DIGEST_LEN,
            r matches Err(ChallengeError::PrefixTooLong) <==> c.target@.len() <= MAX_HEX_CHARS
                && is_hex(c.target@) && hex_decode(c.target@).len() == DIGEST_LEN
                && c.prefix@.len() > MAX_PREFIX_CHARS,
    {
        SearchPlan::new(c.prefix.as_str(), c.target.as_str())
    }

    /// The solution token for a nonce: `prefix:nonce`.
    pub fn token(&self, nonce: u64) -> (r: String)
        ensures
            r@ == candidate_chars(self.prefix_view(), nonce as nat),
    {
        let mut s = String::from_str(self.prefix.as_str());
        proof {
            reveal_strlit(":");
        }
        s.append(":");
        let digits = decimal_string(nonce);
        s.append(digits.as_str());
        s
    }

    /// The digest of the candidate text for a nonce.
    pub fn candidate_digest(&self, nonce: u64) -> (r: Vec<u8>)
        requires
            self.wf(),
        ensures
            r@ == candidate_digest_of(self.prefix_view(), nonce as nat),
            r@.len() == DIGEST_LEN,
    {
        let text = self.token(nonce);
        let bytes = text.as_str().as_bytes_vec();
        proof {
            lemma_candidate_fits(self.prefix@, nonce);
        }
        sha256(bytes.as_slice())
    }

    /// Whether a nonce solves the challenge.
    pub fn accepts(&self, nonce: u64) -> (r: bool)
        requires
            self.wf(),
        ensures
            r == solves(self.prefix_view(), self.target_view(), nonce as nat),
    {
        let d = self.candidate_digest(nonce);
        verify_nonce(&d, &self.target)
    }

    /// Tries up to `attempts` nonces of the class `start, start + stride, ...`
    /// in order, and reports the first that solves the challenge, or where the
    /// class goes on.
    pub fn search(&self, start: u64, stride: u64, attempts: u64) -> (r: SearchStep)
        requires
            self.wf(),
            stride >= 1,
        ensures
            r matches SearchStep::Found(n) ==> exists|k: int|
                0 <= k < attempts && n == stride_nonce(start as int, stride as int, k) && solves(
                    self.prefix_view(),
                    self.target_view(),
                    n as nat,
                ) && forall|j: int|
                    0 <= j < k ==> !solves(
                        self.prefix_view(),
                        self.target_view(),
                        #[trigger] stride_nonce(start as int, stride as int, j) as nat,
                    ),
            r matches SearchStep::Continue(next) ==> next == stride_nonce(
                start as int,
                stride as int,
                attempts as int,
            ) && forall|j: int|
                0 <= j < attempts ==> !solves(
                    self.prefix_view(),
                    self.target_view(),
                    #[trigger] stride_nonce(start as int, stride as int, j) as nat,
                ),
            r is Exhausted ==> stride_nonce(start as int, stride as int, attempts as int)
                > u64::MAX && forall|j: int|
                0 <= j < attempts && stride_nonce(start as int, stride as int, j) <= u64::MAX
                    ==> !solves(
                    self.prefix_view(),
                    self.target_view(),
                    #[trigger] stride_nonce(start as int, stride as int, j) as nat,
                ),
    {
        let ghost p = self.prefix@;
        let ghost t = self.target@;
        let mut cur: u64 = start;
        let mut i: u64 = 0;
        while i < attempts
            invariant
                self.wf(),
                p == self.prefix_view(),
                t == self.target_view(),
                stride >= 1,
                i <= attempts,
                cur == stride_nonce(start as int, stride as int, i as int),
                forall|j: int|
                    0 <= j < i ==> !solves(
                        p,
                        t,
                        #[trigger] stride_nonce(start as int, stride as int, j) as nat,
                    ),
            decreases attempts - i,
        {
            if self.accepts(cur) {
                return SearchStep::Found(cur);
            }
            let ghost done = i;
            i = i + 1;
            assert(stride_nonce(start as int, stride as int, i as int) == cur + stride) by {
                assert((done + 1) * stride == done * stride + stride) by (nonlinear_arith);
            }
            if cur > u64::MAX - stride {
                assert forall|j: int| i <= j implies stride_nonce(start as int, stride as int, j)
                    > u64::MAX by {
                    assert(j * stride >= i * stride) by (nonlinear_arith)
                        requires
                            i <= j,
                            stride >= 1,
                    ;
                }
                return SearchStep::Exhausted;
            }
            cur = cur + stride;
        }
        SearchStep::Continue(cur)
    }
}

/// With `workers` workers, worker `i` takes the class `i, i + workers, ...`:
/// every nonce falls in exactly one class, at exactly one step, so one worker
/// and many cover the same nonces, none twice.
pub proof fn law_workers_cover_every_nonce(n: nat, workers: nat)
    requires
        workers >= 1,
    ensures
        n % workers < workers,
        n == stride_nonce((n % workers) as int, workers as int, (n / workers) as int),
        forall|i: int, k: int|
            0 <= i < workers && 0 <= k && n == #[trigger] stride_nonce(i, workers as int, k)
                ==> i == n % workers && k == n / workers,
{
    assert forall|i: int, k: int|
        0 <= i < workers && 0 <= k && n == #[trigger] stride_nonce(
            i,
            workers as int,
            k,
        ) implies i == n % workers && k == n / workers by {
        lemma_fundamental_div_mod_converse(n as int, workers as int, k, i);
    }
    lemma_fundamental_div_mod(n as int, workers as int);
    assert((n / workers) * workers == workers * (n / workers)) by (nonlinear_arith);
}

} // verus!
