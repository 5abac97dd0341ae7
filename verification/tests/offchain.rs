use weather_forecast::module::Module;
use weather_forecast::offchain::proposal_hash;
use weather_forecast::types::{HttpError, Weather};

#[test]
fn proposal_hash_is_blake2_of_seed_and_nonce() {
    let seed = [7u8; 32];
    let mut encoded = seed.to_vec();
    encoded.extend_from_slice(&5u64.to_le_bytes());
    let expected = sp_crypto_hashing::blake2_256(&encoded);
    let got = proposal_hash(&seed, 5);
    assert_eq!(got, expected);
    assert_ne!(got, seed);
    assert_ne!(proposal_hash(&seed, 6), got);
}

#[test]
fn offchain_round_bumps_the_nonce_only_after_a_fetch() {
    let mut m = Module::new();
    let seed = [1u8; 32];
    assert!(m.offchain_worker(Err(HttpError::IoError), &seed).is_none());
    assert_eq!(m.nonce(), 0);

    let weather = Weather::new(1, vec![], vec![], vec![], vec![], 0, 0, 0, 0, 0, 0);
    let (w, h) = m.offchain_worker(Ok(weather), &seed).unwrap();
    assert_eq!(m.nonce(), 1);
    assert_eq!(w.time(), 1);
    assert_eq!(h, proposal_hash(&seed, 1));

    let weather = Weather::new(2, vec![], vec![], vec![], vec![], 0, 0, 0, 0, 0, 0);
    let (_, h2) = m.offchain_worker(Ok(weather), &seed).unwrap();
    assert_eq!(m.nonce(), 2);
    assert_ne!(h, h2);
}
