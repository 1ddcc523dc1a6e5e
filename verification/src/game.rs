//! Game-mode overlay: the player record, the score formula, and the signed
//! game result handed to the host exactly once when the player's particle
//! collides.
//!
//! A result is signed with HMAC-SHA-256 over the concatenation, in this
//! exact order, of the player name bytes, the player uuid bytes, the score
//! as four big-endian bytes and the tick rate as four big-endian bytes,
//! keyed by a shared secret.  Verification recomputes the digest and
//! compares.

use vstd::prelude::*;
use vstd::utf8::encode_utf8;

use crate::bytes::{bytes_eq, push_u32_be, u32_be};

verus! {

/// The HMAC-SHA-256 digest of `msg` under `key`.  The digest is a pure
/// function of key and message; nothing else is assumed of it.
pub uninterp spec fn hmac_sha256_of(key: Seq<u8>, msg: Seq<u8>) -> Seq<u8>;

/// Relies on `hmac::Hmac<sha2::Sha256>`: `new_from_slice` accepts a key of
/// any length (long keys are first hashed), and `finalize` yields the
/// 32-byte HMAC-SHA-256 digest, a function of key and message alone.
#[verifier::external_body]
fn compute_hmac_sha256(key: &[u8], msg: &Vec<u8>) -> (r: Vec<u8>)
    ensures
        r@ == hmac_sha256_of(key@, msg@),
        r@.len() == 32,
{
    let mut mac = <hmac::Hmac<sha2::Sha256> as hmac::Mac>::new_from_slice(key)
        .expect("HMAC accepts keys of any length");
    hmac::Mac::update(&mut mac, msg.as_slice());
    hmac::Mac::finalize(mac).into_bytes().to_vec()
}

/// The outcome of one game-mode run.
#[derive(Debug)]
pub struct GameResult {
    pub player_uuid: String,
    pub player_name: String,
    pub score: u32,
    pub ticks_per_sec: u32,
}

/// The byte string that is signed: name bytes, uuid bytes, score and tick
/// rate as four big-endian bytes each, in this order.
pub open spec fn message_of(gr: GameResult) -> Seq<u8> {
    encode_utf8(gr.player_name@) + encode_utf8(gr.player_uuid@) + u32_be(gr.score) + u32_be(
        gr.ticks_per_sec,
    )
}

/// The signed message, computed.
pub fn message_bytes(gr: &GameResult) -> (r: Vec<u8>)
    ensures
        r@ == message_of(*gr),
{
    let mut out: Vec<u8> = Vec::new();
    out.extend_from_slice(gr.player_name.as_str().as_bytes());
    out.extend_from_slice(gr.player_uuid.as_str().as_bytes());
    push_u32_be(&mut out, gr.score);
    push_u32_be(&mut out, gr.ticks_per_sec);
    proof {
        assert(out@ =~= message_of(*gr));
    }
    out
}

impl GameResult {
    /// The HMAC-SHA-256 digest of this result's message under `secret`.
    pub fn hex_digest(&self, secret: &[u8]) -> (r: Vec<u8>)
        ensures
            r@ == hmac_sha256_of(secret@, message_of(*self)),
            r@.len() == 32,
    {
        let msg = message_bytes(self);
        compute_hmac_sha256(secret, &msg)
    }
}

/// A game result together with the digest that authenticates it.
#[derive(Debug)]
pub struct SignedGameResult {
    pub game_result: GameResult,
    pub hex_digest: Vec<u8>,
}

impl SignedGameResult {
    /// The digest is the HMAC-SHA-256 of this result's message under
    /// `secret`.
    pub open spec fn spec_signed_ok(self, secret: Seq<u8>) -> bool {
        self.hex_digest@ == hmac_sha256_of(secret, message_of(self.game_result))
    }

    /// Sign `gr` with `secret`.
    pub fn from_game_result(gr: GameResult, secret: &[u8]) -> (r: SignedGameResult)
        ensures
            r.game_result == gr,
            r.spec_signed_ok(secret@),
    {
        let hex_digest = gr.hex_digest(secret);
        SignedGameResult { game_result: gr, hex_digest }
    }

    /// Recompute the digest and compare: true iff the held digest is the
    /// HMAC-SHA-256 of the held result under `secret`.
    pub fn verify(&self, secret: &[u8]) -> (r: bool)
        ensures
            r == self.spec_signed_ok(secret@),
    {
        let expected = self.game_result.hex_digest(secret);
        bytes_eq(&self.hex_digest, &expected)
    }
}

/// Law: signing then verifying with the same secret succeeds.  A digest
/// equal to the HMAC of the result's message under a secret — which is what
/// `from_game_result` produces — is exactly what `verify` accepts under that
/// secret.
pub proof fn lemma_sign_verify_round_trip(gr: GameResult, digest: Vec<u8>, secret: Seq<u8>)
    requires
        digest@ == hmac_sha256_of(secret, message_of(gr)),
    ensures
        (SignedGameResult { game_result: gr, hex_digest: digest }).spec_signed_ok(secret),
{
}

/// The score `dt` time units into a run, with `units_per_sec` time units to
/// the second: the number of tenths of a second elapsed, rounded half up,
/// clamped to `u32::MAX`.
pub open spec fn spec_score(dt: u64, units_per_sec: u64) -> u32
    recommends
        units_per_sec > 0,
{
    let s = (20 * dt + units_per_sec) as int / (2 * units_per_sec) as int;
    if s > u32::MAX {
        u32::MAX
    } else {
        s as u32
    }
}

/// The score, computed.
pub fn score_at(dt: u64, units_per_sec: u64) -> (r: u32)
    requires
        units_per_sec > 0,
    ensures
        r == spec_score(dt, units_per_sec),
{
    let num: u128 = 20u128 * (dt as u128) + (units_per_sec as u128);
    let den: u128 = 2u128 * (units_per_sec as u128);
    let s: u128 = num / den;
    if s > u32::MAX as u128 {
        u32::MAX
    } else {
        s as u32
    }
}

/// The game-mode overlay state: which particle the player controls, who the
/// player is, when the run started, and whether it has already ended.
pub struct GameParams {
    /// Index of the player's particle.
    pub p_particle: usize,
    pub player_uuid: String,
    pub player_name: String,
    /// Engine time (in time units) at which the run started.
    pub game_started_tick: u64,
    pub game_ended: bool,
}

impl GameParams {
    pub fn new(
        p_particle: usize,
        player_uuid: String,
        player_name: String,
        game_started_tick: u64,
    ) -> (g: GameParams)
        ensures
            g == (GameParams {
                p_particle,
                player_uuid,
                player_name,
                game_started_tick,
                game_ended: false,
            }),
    {
        GameParams { p_particle, player_uuid, player_name, game_started_tick, game_ended: false }
    }

    /// The player's score at engine time `now`.
    pub fn get_score(&self, now: u64, units_per_sec: u64) -> (r: u32)
        requires
            units_per_sec > 0,
            now >= self.game_started_tick,
        ensures
            r == spec_score((now - self.game_started_tick) as u64, units_per_sec),
    {
        score_at(now - self.game_started_tick, units_per_sec)
    }

    /// End the run: the first call signs and returns the result; any later
    /// call is a no-op, so the game-over outcome fires exactly once per run.
    pub fn game_over(
        &mut self,
        now: u64,
        ticks_per_sec: u32,
        units_per_sec: u64,
        secret: &[u8],
    ) -> (r: Option<SignedGameResult>)
        requires
            units_per_sec > 0,
            now >= old(self).game_started_tick,
        ensures
            final(self).game_ended,
            final(self).p_particle == old(self).p_particle,
            final(self).player_uuid == old(self).player_uuid,
            final(self).player_name == old(self).player_name,
            final(self).game_started_tick == old(self).game_started_tick,
            old(self).game_ended ==> r is None && *final(self) == *old(self),
            !old(self).game_ended ==> match r {
                Option::Some(sgr) => {
                    &&& sgr.game_result == (GameResult {
                        player_uuid: old(self).player_uuid,
                        player_name: old(self).player_name,
                        score: spec_score(
                            (now - old(self).game_started_tick) as u64,
                            units_per_sec,
                        ),
                        ticks_per_sec,
                    })
                    &&& sgr.spec_signed_ok(secret@)
                },
                Option::None => false,
            },
    {
        if self.game_ended {
            return None;
        }
        let score = self.get_score(now, units_per_sec);
        let gr = GameResult {
            player_uuid: self.player_uuid.clone(),
            player_name: self.player_name.clone(),
            score,
            ticks_per_sec,
        };
        self.game_ended = true;
        Some(SignedGameResult::from_game_result(gr, secret))
    }
}

} // verus!
