use cupslib::addr::{onion_to_pubkey, pubkey_to_base32, pubkey_to_onion, DecodeError, EncodeError};

const PK_ZERO_ADDR: &str = "aaaaaaaaaaaaaaaaaaaaaaaaaaaaaaaaaaaaaaaaaaaaaaaaaaam2dqd.onion";
const PK_COUNT_ADDR: &str = "aaaqeayeaudaocajbifqydiob4ibceqtcqkrmfyydenbwha5dyp3kead.onion";

fn counting_key() -> [u8; 32] {
    let mut pk = [0u8; 32];
    let mut i = 0usize;
    while i < 32 {
        pk[i] = i as u8;
        i += 1;
    }
    pk
}

#[test]
fn encode_zero_key() {
    let addr = pubkey_to_onion(&[0u8; 32]).unwrap();
    assert_eq!(addr, PK_ZERO_ADDR);
}

#[test]
fn encode_counting_key() {
    let addr = pubkey_to_onion(&counting_key()).unwrap();
    assert_eq!(addr, PK_COUNT_ADDR);
}

#[test]
fn encode_rejects_short_key() {
    assert!(matches!(pubkey_to_onion(&[0u8; 31]), Err(EncodeError::InvalidLength)));
    assert!(matches!(pubkey_to_onion(&[0u8; 33]), Err(EncodeError::InvalidLength)));
    assert!(matches!(pubkey_to_onion(&[]), Err(EncodeError::InvalidLength)));
}

#[test]
fn decode_known_addresses() {
    let pk = onion_to_pubkey(PK_ZERO_ADDR).unwrap();
    assert_eq!(pk.0, [0u8; 32]);
    let pk = onion_to_pubkey(PK_COUNT_ADDR).unwrap();
    assert_eq!(pk.0, counting_key());
}

#[test]
fn round_trip_various_keys() {
    let mut pk = [0u8; 32];
    for seed in 0u32..8 {
        for i in 0..32 {
            pk[i] = ((seed * 37 + i as u32 * 101 + 13) % 256) as u8;
        }
        let addr = pubkey_to_onion(&pk).unwrap();
        let back = onion_to_pubkey(&addr).unwrap();
        assert_eq!(back.0, pk);
    }
}

#[test]
fn address_is_56_char_label_plus_suffix() {
    let addr = pubkey_to_onion(&counting_key()).unwrap();
    assert_eq!(addr.len(), 62);
    assert_eq!(addr.split('.').next().unwrap().len(), 56);
}

#[test]
fn reencode_of_decoded_canonical_address() {
    let pk = onion_to_pubkey(PK_COUNT_ADDR).unwrap();
    assert_eq!(pubkey_to_onion(&pk.0).unwrap(), PK_COUNT_ADDR);
    // A foreign suffix decodes to the same key, and re-encoding returns the
    // canonical address.
    let label = PK_COUNT_ADDR.split('.').next().unwrap();
    let other = format!("{}.example", label);
    let pk = onion_to_pubkey(&other).unwrap();
    assert_eq!(pubkey_to_onion(&pk.0).unwrap(), PK_COUNT_ADDR);
}

#[test]
fn decode_ignores_suffix_after_first_dot() {
    let label = PK_ZERO_ADDR.split('.').next().unwrap();
    let with_other_suffix = format!("{}.example.org", label);
    let pk = onion_to_pubkey(&with_other_suffix).unwrap();
    assert_eq!(pk.0, [0u8; 32]);
    let bare = onion_to_pubkey(label).unwrap();
    assert_eq!(bare.0, [0u8; 32]);
}

#[test]
fn decode_rejects_bad_version() {
    // The same 32-byte key and checksum, but version byte 5 at position 34.
    let addr = "aaaaaaaaaaaaaaaaaaaaaaaaaaaaaaaaaaaaaaaaaaaaaaaaaaam2dqf.onion";
    assert!(matches!(onion_to_pubkey(addr), Err(DecodeError::UnsupportedVersion)));
}

#[test]
fn decode_rejects_bad_checksum() {
    // The first checksum byte is inverted.
    let addr = "aaaaaaaaaaaaaaaaaaaaaaaaaaaaaaaaaaaaaaaaaaaaaaaaaaadedqd.onion";
    assert!(matches!(onion_to_pubkey(addr), Err(DecodeError::ChecksumMismatch)));
}

#[test]
fn decode_rejects_short_label() {
    // Only 34 bytes behind the label.
    let addr = "aaaaaaaaaaaaaaaaaaaaaaaaaaaaaaaaaaaaaaaaaaaaaaaaaaaagay.onion";
    assert!(matches!(onion_to_pubkey(addr), Err(DecodeError::InvalidLength)));
    assert!(matches!(onion_to_pubkey(""), Err(DecodeError::InvalidLength)));
}

#[test]
fn decode_rejects_bad_encoding() {
    // Uppercase and out-of-alphabet characters are not the lowercase base-32
    // form an address uses.
    let upper = PK_ZERO_ADDR.to_uppercase();
    assert!(matches!(onion_to_pubkey(&upper), Err(DecodeError::InvalidEncoding)));
    assert!(matches!(onion_to_pubkey("not base32!.onion"), Err(DecodeError::InvalidEncoding)));
    assert!(matches!(onion_to_pubkey("0189.onion"), Err(DecodeError::InvalidEncoding)));
}

#[test]
fn base32_label_of_key() {
    let label = pubkey_to_base32(&counting_key());
    assert_eq!(label, "aaaqeayeaudaocajbifqydiob4ibceqtcqkrmfyydenbwha5dypq");
    assert_eq!(label.len(), 52);
}
