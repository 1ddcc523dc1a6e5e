use hmac::Mac;

use red_simulation::game::{score_at, GameResult, SignedGameResult};
use red_simulation::submit::{check_submission, NewScore, SubmitError};

fn sample_result() -> GameResult {
    GameResult {
        player_uuid: String::from("123e4567-e89b-12d3-a456-426614174000"),
        player_name: String::from("alice"),
        score: 420,
        ticks_per_sec: 100,
    }
}

/// The fixed public default key used when no secret is configured.
const SECRET: &[u8] = b"The Magic Words are Squeamish Ossifrage";

#[test]
fn test_sign_verify_round_trip() {
    let sgr = SignedGameResult::from_game_result(sample_result(), SECRET);
    assert!(sgr.verify(SECRET));
}

#[test]
fn test_verify_rejects_other_secret() {
    let sgr = SignedGameResult::from_game_result(sample_result(), SECRET);
    assert!(!sgr.verify(b"another secret"));
}

#[test]
fn test_verify_rejects_flipped_digest_byte() {
    for i in 0..32 {
        let mut sgr = SignedGameResult::from_game_result(sample_result(), SECRET);
        sgr.hex_digest[i] ^= 1;
        assert!(!sgr.verify(SECRET));
    }
}

#[test]
fn test_verify_rejects_tampered_message() {
    let good = SignedGameResult::from_game_result(sample_result(), SECRET);

    let mut renamed = sample_result();
    renamed.player_name = String::from("alicf");
    let tampered = SignedGameResult {
        game_result: renamed,
        hex_digest: good.hex_digest.clone(),
    };
    assert!(!tampered.verify(SECRET));

    let mut rescored = sample_result();
    rescored.score += 1;
    let tampered = SignedGameResult {
        game_result: rescored,
        hex_digest: good.hex_digest.clone(),
    };
    assert!(!tampered.verify(SECRET));
}

/// The digest must be the HMAC-SHA-256 over name bytes, uuid bytes, the
/// score as four big-endian bytes and the tick rate as four big-endian
/// bytes, in that order.
#[test]
fn test_digest_matches_reference_hmac() {
    let gr = sample_result();
    let sgr = SignedGameResult::from_game_result(sample_result(), SECRET);

    let mut mac = hmac::Hmac::<sha2::Sha256>::new_from_slice(SECRET).unwrap();
    mac.update(gr.player_name.as_bytes());
    mac.update(gr.player_uuid.as_bytes());
    mac.update(&gr.score.to_be_bytes());
    mac.update(&gr.ticks_per_sec.to_be_bytes());
    let expected: Vec<u8> = mac.finalize().into_bytes().as_slice().into();

    assert_eq!(sgr.hex_digest, expected);
}

#[test]
fn test_check_submission_accepts_valid() {
    let sgr = SignedGameResult::from_game_result(sample_result(), SECRET);
    let ns: NewScore = check_submission(sgr, SECRET).unwrap();
    assert_eq!(ns.player_name, "alice");
    assert_eq!(ns.score, 420i64);
    assert_eq!(ns.player_uuid, "123e4567-e89b-12d3-a456-426614174000");
}

#[test]
fn test_check_submission_refuses_bad_digest() {
    let mut sgr = SignedGameResult::from_game_result(sample_result(), SECRET);
    sgr.hex_digest[7] ^= 0xFF;
    assert_eq!(check_submission(sgr, SECRET).unwrap_err(), SubmitError::InvalidDigest);
}

#[test]
fn test_score_formula() {
    // One time unit per second: the score is ten points a second,
    // rounded half up.
    assert_eq!(score_at(0, 1), 0);
    assert_eq!(score_at(3, 1), 30);
    // A thousand units per second.
    assert_eq!(score_at(1500, 1000), 15);
    assert_eq!(score_at(1549, 1000), 15);
    assert_eq!(score_at(1550, 1000), 16);
    // Clamped at the top.
    assert_eq!(score_at(u64::MAX, 1), u32::MAX);
}
