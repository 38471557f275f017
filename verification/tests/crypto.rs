use os_watchdog::crypto::{
    decrypt_data, decrypted_text, encrypt_data, encrypt_with_nonce, envelope, get_master_key,
    hash_password, hash_with_salt, key_or_drawn, lanes_are_few, needs_key, usable_key,
    verdict_passes, verify_password, MasterKey, PHC_PREFIX,
};

fn zero_key() -> MasterKey {
    usable_key(Some(vec![0u8; 32])).unwrap()
}

#[test]
fn encrypts_as_aes_256_gcm() {
    let sealed = encrypt_with_nonce(&zero_key(), vec![0u8; 12], "");
    assert_eq!(
        sealed[12..].to_vec(),
        vec![
            0x53, 0x0f, 0x8a, 0xfb, 0xc7, 0x45, 0x36, 0xb9, 0xa9, 0x63, 0xb4, 0xf1, 0xc4, 0xcb,
            0x73, 0x8b
        ]
    );
    let text = "\0\0\0\0\0\0\0\0\0\0\0\0\0\0\0\0";
    let sealed = encrypt_with_nonce(&zero_key(), vec![0u8; 12], text);
    assert_eq!(
        sealed[12..].to_vec(),
        vec![
            0xce, 0xa7, 0x40, 0x3d, 0x4d, 0x60, 0x6b, 0x6e, 0x07, 0x4e, 0xc5, 0xd3, 0xba, 0xf3,
            0x9d, 0x18, 0xd0, 0xd1, 0xc8, 0xa7, 0x99, 0x99, 0x6b, 0xf0, 0x26, 0x5b, 0x98, 0xb5,
            0xd4, 0x8a, 0xb9, 0x19
        ]
    );
}

#[test]
fn decryption_undoes_encryption() {
    let key = get_master_key(None).key;
    for text in ["", "secret", "gr\u{fc}\u{df}e \u{1f512}"] {
        let data = encrypt_data(&key, text);
        assert_eq!(data.len(), 12 + text.len() + 16);
        assert_eq!(decrypt_data(&key, &data), Some(String::from(text)));
    }
}

#[test]
fn two_encryptions_of_a_text_differ() {
    let key = zero_key();
    assert_ne!(encrypt_data(&key, "secret"), encrypt_data(&key, "secret"));
}

#[test]
fn altered_or_short_data_is_not_decrypted() {
    let key = zero_key();
    let mut data = encrypt_data(&key, "secret");
    assert_eq!(decrypt_data(&key, &data[..11]), None);
    assert_eq!(decrypt_data(&key, &data[..20]), None);
    data[14] ^= 1;
    assert_eq!(decrypt_data(&key, &data), None);
    let other = usable_key(Some(vec![1u8; 32])).unwrap();
    assert_eq!(decrypt_data(&other, &encrypt_data(&key, "secret")), None);
}

#[test]
fn decrypted_bytes_must_be_a_text() {
    assert_eq!(decrypted_text(None), None);
    assert_eq!(decrypted_text(Some(vec![0xff, 0xfe])), None);
    assert_eq!(decrypted_text(Some(vec![0x68, 0x69])), Some(String::from("hi")));
    assert_eq!(envelope(vec![1, 2], vec![3]), vec![1, 2, 3]);
}

#[test]
fn a_stored_key_of_the_right_length_is_used() {
    let stored: Vec<u8> = (0..32).collect();
    let loaded = get_master_key(Some(stored.clone()));
    assert!(!loaded.fresh);
    assert_eq!(loaded.key.bytes, stored);
}

#[test]
fn otherwise_a_key_is_made() {
    for stored in [None, Some(vec![]), Some(vec![0u8; 31]), Some(vec![0u8; 33])] {
        let loaded = get_master_key(stored);
        assert!(loaded.fresh);
        assert_eq!(loaded.key.bytes.len(), 32);
        assert_ne!(loaded.key.bytes, vec![0u8; 32]);
    }
    assert!(usable_key(None).is_none());
    assert!(usable_key(Some(vec![0u8; 31])).is_none());
}

#[test]
fn a_password_has_its_hash() {
    let hash = hash_password("hunter2");
    assert!(hash.starts_with("$argon2id$v=19$m=19456,t=2,p=1$"));
    assert!(verify_password(&hash, "hunter2"));
    assert!(!verify_password(&hash, "hunter3"));
}

#[test]
fn a_hash_depends_on_the_salt() {
    let one = hash_with_salt("hunter2", &[1u8; 16]);
    let two = hash_with_salt("hunter2", &[2u8; 16]);
    assert_ne!(one, two);
    assert_eq!(one, hash_with_salt("hunter2", &[1u8; 16]));
    assert!(one.starts_with("$argon2id$v=19$m=19456,t=2,p=1$AQEBAQEBAQEBAQEBAQEBAQ$"));
}

#[test]
fn short_and_long_salts_give_hashes_that_verify() {
    assert!(verify_password(&hash_with_salt("pw", &[255u8; 8]), "pw"));
    assert!(verify_password(&hash_with_salt("pw", &[255u8; 48]), "pw"));
}

#[test]
fn an_unreadable_hash_accepts_nothing() {
    assert!(!verify_password("", ""));
    assert!(!verify_password("not a hash", "not a hash"));
    assert!(!verify_password("$argon2id$v=19$m=19456,t=2,p=1", "x"));
    assert!(!verdict_passes(None));
    assert!(!verdict_passes(Some(false)));
    assert!(verdict_passes(Some(true)));
}

#[test]
fn a_drawn_key_is_used_where_none_is_stored() {
    let loaded = key_or_drawn(Some(vec![7u8; 31]), vec![9u8; 32]);
    assert!(loaded.fresh);
    assert_eq!(loaded.key.bytes, vec![9u8; 32]);
    let loaded = key_or_drawn(None, vec![9u8; 32]);
    assert!(loaded.fresh);
    assert_eq!(loaded.key.bytes, vec![9u8; 32]);
    let loaded = key_or_drawn(Some(vec![7u8; 32]), vec![9u8; 32]);
    assert!(!loaded.fresh);
    assert_eq!(loaded.key.bytes, vec![7u8; 32]);
    assert_ne!(get_master_key(None).key.bytes, get_master_key(None).key.bytes);
}

#[test]
fn short_data_needs_no_key() {
    assert!(!needs_key(&[0u8; 11]));
    assert!(needs_key(&[0u8; 12]));
    assert_eq!(decrypt_data(&zero_key(), &[0u8; 11]), None);
    assert_eq!(decrypt_data(&zero_key(), &[0u8; 27]), None);
}

#[test]
fn hashes_begin_alike_and_differ_by_salt() {
    assert!(hash_password("").starts_with(PHC_PREFIX));
    assert!(verify_password(&hash_password(""), ""));
    assert_ne!(hash_password("pw"), hash_password("pw"));
}

#[test]
fn too_many_lanes_accept_nothing() {
    let hash = hash_with_salt("pw", &[1u8; 16]);
    assert!(lanes_are_few(&hash));
    for lanes in ["536870912", "4294967295", "99999999999", "99999999", "0"] {
        let odd = hash.replace("p=1$", &format!("p={}$", lanes));
        assert_eq!(lanes_are_few(&odd), lanes.len() <= 8);
        assert!(!verify_password(&odd, "pw"));
    }
}

#[test]
fn the_last_lane_count_counts() {
    let hash = hash_with_salt("pw", &[1u8; 16]);
    let twice = hash.replace("p=1$", "p=999999999,p=1$");
    assert!(lanes_are_few(&twice));
    assert!(verify_password(&twice, "pw"));
    let twice = hash.replace("p=1$", "p=1,p=999999999$");
    assert!(!lanes_are_few(&twice));
    assert!(!verify_password(&twice, "pw"));
    assert!(lanes_are_few("p="));
    assert!(lanes_are_few("p=12345678"));
    assert!(lanes_are_few("p=12345678x"));
    assert!(!lanes_are_few("p=123456789"));
}
