//! The score-submission decision: a signed result is accepted iff its
//! digest verifies against the shared secret; acceptance yields the record
//! to persist, refusal writes nothing.

use vstd::prelude::*;

use crate::game::SignedGameResult;

verus! {

/// The record persisted for an accepted submission.  The creation timestamp
/// is added by the store itself.
#[derive(Debug)]
pub struct NewScore {
    pub player_name: String,
    pub score: i64,
    pub player_uuid: String,
}

/// Why a submission was refused.
#[derive(Clone, Copy, Debug, PartialEq, Eq, Structural)]
pub enum SubmitError {
    /// The digest is not the HMAC of the submitted result under the secret.
    InvalidDigest,
}

/// Accept or refuse a submitted signed result.  Accepted iff the digest
/// verifies under `secret`; the accepted record carries the submitted name,
/// uuid and score.
pub fn check_submission(sgr: SignedGameResult, secret: &[u8]) -> (r: Result<
    NewScore,
    SubmitError,
>)
    ensures
        match r {
            Result::Ok(ns) => {
                &&& sgr.spec_signed_ok(secret@)
                &&& ns.player_name == sgr.game_result.player_name
                &&& ns.score == sgr.game_result.score as i64
                &&& ns.player_uuid == sgr.game_result.player_uuid
            },
            Result::Err(e) => !sgr.spec_signed_ok(secret@) && e == SubmitError::InvalidDigest,
        },
{
    if !sgr.verify(secret) {
        return Err(SubmitError::InvalidDigest);
    }
    let score: i64 = sgr.game_result.score as i64;
    Ok(
        NewScore {
            player_name: sgr.game_result.player_name,
            score,
            player_uuid: sgr.game_result.player_uuid,
        },
    )
}

} // verus!
