//! Secrets at rest: encryption of stored credentials with AES-256-GCM, and
//! password hashes with Argon2.

use crate::text::{all_digits, characters, is_digit};
use aes_gcm::aead::{Aead, AeadCore, KeyInit, OsRng};
use aes_gcm::{Aes256Gcm, Key, Nonce};
use argon2::password_hash::rand_core::OsRng as SaltRng;
use argon2::password_hash::{PasswordHash, PasswordHasher, PasswordVerifier, SaltString};
use argon2::Argon2;
use vstd::prelude::*;
use vstd::string::*;
use vstd::utf8::{decode_utf8, encode_utf8, encode_utf8_decode_utf8, encode_utf8_valid_utf8, valid_utf8};

verus! {

/// Length of a master key.
pub const KEY_BYTES: usize = 32;

/// Length of a nonce.
pub const NONCE_BYTES: usize = 12;

/// Length of the authentication tag that ends a ciphertext.
pub const TAG_BYTES: usize = 16;

/// The longest text that can be encrypted, in bytes.
pub const PLAINTEXT_MAX: u64 = 0x10_0000_0000;

/// The longest password that can be hashed, in bytes.
pub const PASSWORD_MAX: u64 = 0xFFFF_FFFF;

/// Length of a generated salt.
pub const SALT_BYTES: usize = 16;

/// The key that stored credentials are encrypted with.
#[derive(Debug, Clone)]
pub struct MasterKey {
    pub bytes: Vec<u8>,
}

impl View for MasterKey {
    type V = Seq<u8>;

    open spec fn view(&self) -> Seq<u8> {
        self.bytes@
    }
}

impl MasterKey {
    /// The key has the length that the cipher needs.
    pub open spec fn wf(self) -> bool {
        self@.len() == KEY_BYTES
    }
}

/// A master key, and whether it was made just now and is yet to be stored.
#[derive(Debug, Clone)]
pub struct LoadedKey {
    pub key: MasterKey,
    pub fresh: bool,
}

/// AES-256-GCM encryption without associated data: the ciphertext with the tag
/// behind it.
pub uninterp spec fn aes_gcm_sealed(key: Seq<u8>, nonce: Seq<u8>, plaintext: Seq<u8>) -> Seq<u8>;

/// AES-256-GCM decryption without associated data: the plaintext, or `None`
/// where the tag does not match.
pub uninterp spec fn aes_gcm_opened(key: Seq<u8>, nonce: Seq<u8>, ciphertext: Seq<u8>) -> Option<
    Seq<u8>,
>;

/// The lane count of a PHC string, `p=` and a number, begins here.
pub open spec fn names_lanes(text: Seq<char>, at: int) -> bool {
    0 <= at && at + 1 < text.len() && text[at] == 'p' && text[at + 1] == '='
}

/// Nine digits stand behind the last `p=`, which begins here. Of several lane
/// counts in a PHC string the last one counts.
pub open spec fn lanes_exceed_at(text: Seq<char>, at: int) -> bool {
    &&& names_lanes(text, at)
    &&& forall|later: int| at < later ==> !names_lanes(text, later)
    &&& at + 11 <= text.len()
    &&& all_digits(text.subrange(at + 2, at + 11))
}

/// The lane count of a PHC string has at most eight digits, so that Argon2 can
/// compute with it. No hash has more lanes than that.
pub open spec fn lanes_fit(text: Seq<char>) -> bool {
    forall|at: int| !lanes_exceed_at(text, at)
}

/// How every PHC string of the default algorithm, version and parameters begins.
pub const PHC_PREFIX: &'static str = "$argon2id$v=19$m=19456,t=2,p=1$";

/// The PHC string of the Argon2 hash of a password with a salt, under the
/// default algorithm, version and parameters.
pub uninterp spec fn argon2_phc(password: Seq<u8>, salt: Seq<u8>) -> Seq<char>;

/// No other salt gives this PHC string, whatever the password.
pub open spec fn carries_salt(text: Seq<char>, salt: Seq<u8>) -> bool {
    forall|password: Seq<u8>, other: Seq<u8>|
        password.len() <= PASSWORD_MAX && 8 <= other.len() <= 48 && #[trigger] argon2_phc(
            password,
            other,
        ) == text ==> other == salt
}

/// Whether a password has the hash that a PHC string gives; `None` where the
/// text is not a PHC string.
pub uninterp spec fn argon2_verdict(hash: Seq<char>, password: Seq<u8>) -> Option<bool>;

/// `aes_gcm::Aes256Gcm::generate_key` with the operating system's generator:
/// any 32 bytes. It panics where that generator fails.
#[verifier::external_body]
pub(crate) fn generate_key() -> (r: Vec<u8>)
    ensures
        r@.len() == KEY_BYTES,
{
    Aes256Gcm::generate_key(OsRng).to_vec()
}

/// `aes_gcm::Aes256Gcm::generate_nonce` with the operating system's generator:
/// any 12 bytes. It panics where that generator fails.
#[verifier::external_body]
pub(crate) fn generate_nonce() -> (r: Vec<u8>)
    ensures
        r@.len() == NONCE_BYTES,
{
    Aes256Gcm::generate_nonce(&mut OsRng).to_vec()
}

/// `encrypt` of `aes_gcm::Aes256Gcm`: fails exactly on a plaintext of more than
/// 2^36 bytes. The result has the name `aes_gcm_sealed`; it is 16 bytes longer
/// than the plaintext, and decryption with the same key and nonce gives the
/// plaintext back.
#[verifier::external_body]
pub(crate) fn aes_gcm_encrypt(key: &[u8], nonce: &[u8], plaintext: &[u8]) -> (r: Option<Vec<u8>>)
    requires
        key@.len() == KEY_BYTES,
        nonce@.len() == NONCE_BYTES,
    ensures
        r is Some <==> plaintext@.len() <= PLAINTEXT_MAX,
        r matches Some(c) ==> c@ == aes_gcm_sealed(key@, nonce@, plaintext@),
        r matches Some(c) ==> c@.len() == plaintext@.len() + TAG_BYTES,
        r matches Some(c) ==> aes_gcm_opened(key@, nonce@, c@) == Some(plaintext@),
{
    let cipher = Aes256Gcm::new(Key::<Aes256Gcm>::from_slice(key));
    cipher.encrypt(Nonce::from_slice(nonce), plaintext).ok()
}

/// `decrypt` of `aes_gcm::Aes256Gcm`: a function of key, nonce and ciphertext,
/// with the name `aes_gcm_opened`. The plaintext is 16 bytes shorter than the
/// ciphertext, so a ciphertext of less than 16 bytes is never opened.
#[verifier::external_body]
pub(crate) fn aes_gcm_decrypt(key: &[u8], nonce: &[u8], ciphertext: &[u8]) -> (r: Option<Vec<u8>>)
    requires
        key@.len() == KEY_BYTES,
        nonce@.len() == NONCE_BYTES,
    ensures
        r is Some <==> aes_gcm_opened(key@, nonce@, ciphertext@) is Some,
        r matches Some(p) ==> aes_gcm_opened(key@, nonce@, ciphertext@) == Some(p@),
        r matches Some(p) ==> ciphertext@.len() == p@.len() + TAG_BYTES,
{
    let cipher = Aes256Gcm::new(Key::<Aes256Gcm>::from_slice(key));
    cipher.decrypt(Nonce::from_slice(nonce), ciphertext).ok()
}

/// `String::from_utf8`: the text that the bytes encode, where they are UTF-8.
#[verifier::external_body]
pub(crate) fn utf8_text(bytes: Vec<u8>) -> (r: Option<String>)
    ensures
        r is Some <==> valid_utf8(bytes@),
        r matches Some(s) ==> s@ == decode_utf8(bytes@),
{
    String::from_utf8(bytes).ok()
}

/// `argon2::password_hash::SaltString::generate` with the operating system's
/// generator: any 16 bytes, which the salt string encodes. It panics where that
/// generator fails.
#[verifier::external_body]
pub(crate) fn generate_salt() -> (r: Vec<u8>)
    ensures
        r@.len() == SALT_BYTES,
{
    let salt = SaltString::generate(&mut SaltRng);
    let mut buffer = [0u8; 64];
    salt.decode_b64(&mut buffer).unwrap().to_vec()
}

/// `hash_password` of `argon2::Argon2::default()`, written as a PHC string. The
/// result has the name `argon2_phc`, and `verify_password` accepts it for the
/// same password. It begins with the default algorithm, version and parameters,
/// among them one lane, and carries the salt in full. It needs a password of at most 2^32 - 1 bytes, and a salt of
/// at least 8 bytes that a salt string can encode.
#[verifier::external_body]
pub(crate) fn argon2_hash(password: &[u8], salt: &[u8]) -> (r: String)
    requires
        password@.len() <= PASSWORD_MAX,
        8 <= salt@.len() <= 48,
    ensures
        r@ == argon2_phc(password@, salt@),
        argon2_verdict(r@, password@) == Some(true),
        PHC_PREFIX@.is_prefix_of(r@),
        lanes_fit(r@),
        carries_salt(r@, salt@),
{
    let salt = SaltString::encode_b64(salt).unwrap();
    Argon2::default().hash_password(password, &salt).unwrap().to_string()
}

/// `argon2::PasswordHash::new`, then `verify_password` of
/// `argon2::Argon2::default()`: a function of hash and password, with the name
/// `argon2_verdict`. It multiplies the lane count by 8 in 32 bits before it looks
/// at its bounds, so that more than eight digits can make it panic. It takes as
/// much memory as the hash says.
#[verifier::external_body]
pub(crate) fn argon2_verify(hash: &str, password: &[u8]) -> (r: Option<bool>)
    requires
        lanes_fit(hash@),
    ensures
        r == argon2_verdict(hash@, password@),
{
    match PasswordHash::new(hash) {
        Ok(parsed) => Some(Argon2::default().verify_password(password, &parsed).is_ok()),
        Err(_) => None,
    }
}

/// The stored bytes as a master key, if they have the length of one.
pub fn usable_key(stored: Option<Vec<u8>>) -> (r: Option<MasterKey>)
    ensures
        r is Some <==> (stored is Some && stored->0@.len() == KEY_BYTES),
        r matches Some(key) ==> key@ == stored->0@ && key.wf(),
{
    match stored {
        Some(bytes) => if bytes.len() == KEY_BYTES {
            Some(MasterKey { bytes })
        } else {
            None
        },
        None => None,
    }
}

/// The master key: the stored one where it is usable, else the one that was
/// drawn.
pub fn key_or_drawn(stored: Option<Vec<u8>>, drawn: Vec<u8>) -> (r: LoadedKey)
    requires
        drawn@.len() == KEY_BYTES,
    ensures
        r.key.wf(),
        r.fresh <==> !(stored is Some && stored->0@.len() == KEY_BYTES),
        !r.fresh ==> r.key@ == stored->0@,
        r.fresh ==> r.key@ == drawn@,
{
    match usable_key(stored) {
        Some(key) => LoadedKey { key, fresh: false },
        None => LoadedKey { key: MasterKey { bytes: drawn }, fresh: true },
    }
}

/// The master key: the stored one where it is usable, else a new one.
pub fn get_master_key(stored: Option<Vec<u8>>) -> (r: LoadedKey)
    ensures
        r.key.wf(),
        r.fresh <==> !(stored is Some && stored->0@.len() == KEY_BYTES),
        !r.fresh ==> r.key@ == stored->0@,
{
    key_or_drawn(stored, generate_key())
}

/// The text that stored bytes hold: the first 12 bytes are the nonce, the rest
/// is the ciphertext of UTF-8.
pub open spec fn decrypted(key: Seq<u8>, data: Seq<u8>) -> Option<Seq<char>> {
    if data.len() < NONCE_BYTES {
        None
    } else {
        opened_text(aes_gcm_opened(key, data.take(NONCE_BYTES as int), data.skip(NONCE_BYTES as int)))
    }
}

/// The text that decrypted bytes hold.
pub open spec fn opened_text(opened: Option<Seq<u8>>) -> Option<Seq<char>> {
    match opened {
        Some(plaintext) => if valid_utf8(plaintext) {
            Some(decode_utf8(plaintext))
        } else {
            None
        },
        None => None,
    }
}

/// Puts the nonce before the ciphertext, where decryption looks for it.
pub fn envelope(nonce: Vec<u8>, ciphertext: Vec<u8>) -> (r: Vec<u8>)
    ensures
        r@ == nonce@ + ciphertext@,
{
    let mut r = nonce;
    let mut c = ciphertext;
    r.append(&mut c);
    r
}

/// Encrypts a text under a given nonce.
pub fn encrypt_with_nonce(key: &MasterKey, nonce: Vec<u8>, data: &str) -> (r: Vec<u8>)
    requires
        key.wf(),
        nonce@.len() == NONCE_BYTES,
        encode_utf8(data@).len() <= PLAINTEXT_MAX,
    ensures
        r@ == nonce@ + aes_gcm_sealed(key@, nonce@, encode_utf8(data@)),
        r@.len() == NONCE_BYTES + encode_utf8(data@).len() + TAG_BYTES,
        decrypted(key@, r@) == Some(data@),
{
    let sealed = aes_gcm_encrypt(key.bytes.as_slice(), nonce.as_slice(), data.as_bytes());
    let ciphertext = sealed.unwrap();
    let ghost n = nonce@;
    let ghost c = ciphertext@;
    let r = envelope(nonce, ciphertext);
    proof {
        assert(r@.take(NONCE_BYTES as int) =~= n);
        assert(r@.skip(NONCE_BYTES as int) =~= c);
        encode_utf8_valid_utf8(data@);
        encode_utf8_decode_utf8(data@);
    }
    r
}

/// Encrypts a text under a nonce of its own. Decryption with the same key
/// gives the text back.
pub fn encrypt_data(key: &MasterKey, data: &str) -> (r: Vec<u8>)
    requires
        key.wf(),
        encode_utf8(data@).len() <= PLAINTEXT_MAX,
    ensures
        r@.len() == NONCE_BYTES + encode_utf8(data@).len() + TAG_BYTES,
        r@.skip(NONCE_BYTES as int) == aes_gcm_sealed(
            key@,
            r@.take(NONCE_BYTES as int),
            encode_utf8(data@),
        ),
        decrypted(key@, r@) == Some(data@),
{
    let nonce = generate_nonce();
    let ghost n = nonce@;
    let r = encrypt_with_nonce(key, nonce, data);
    proof {
        assert(r@.take(NONCE_BYTES as int) =~= n);
        assert(r@.skip(NONCE_BYTES as int) =~= aes_gcm_sealed(key@, n, encode_utf8(data@)));
    }
    r
}

/// The text that decrypted bytes hold, where they are UTF-8.
pub fn decrypted_text(opened: Option<Vec<u8>>) -> (r: Option<String>)
    ensures
        r is Some <==> (opened is Some && valid_utf8(opened->0@)),
        r matches Some(s) ==> s@ == decode_utf8(opened->0@),
{
    match opened {
        Some(plaintext) => utf8_text(plaintext),
        None => None,
    }
}

/// Whether stored bytes are long enough to hold a nonce: only then is a key
/// needed to decrypt them.
pub fn needs_key(data: &[u8]) -> (r: bool)
    ensures
        r == (data@.len() >= NONCE_BYTES),
{
    data.len() >= NONCE_BYTES
}

/// Decrypts stored bytes; nothing where they are too short to hold a nonce,
/// were not made with this key, or do not hold a text.
pub fn decrypt_data(key: &MasterKey, data: &[u8]) -> (r: Option<String>)
    requires
        key.wf(),
    ensures
        r is Some <==> decrypted(key@, data@) is Some,
        r matches Some(s) ==> decrypted(key@, data@) == Some(s@),
        data@.len() < NONCE_BYTES + TAG_BYTES ==> r is None,
{
    if !needs_key(data) {
        return None;
    }
    let nonce = vstd::slice::slice_subrange(data, 0, NONCE_BYTES);
    let ciphertext = vstd::slice::slice_subrange(data, NONCE_BYTES, data.len());
    proof {
        assert(nonce@ =~= data@.take(NONCE_BYTES as int));
        assert(ciphertext@ =~= data@.skip(NONCE_BYTES as int));
    }
    decrypted_text(aes_gcm_decrypt(key.bytes.as_slice(), nonce, ciphertext))
}

/// The hash is one of the password.
pub open spec fn accepts(hash: Seq<char>, password: Seq<char>) -> bool {
    lanes_fit(hash) && argon2_verdict(hash, encode_utf8(password)) == Some(true)
}

/// Hashes a password with a given salt. Other salts give other texts.
pub fn hash_with_salt(password: &str, salt: &[u8]) -> (r: String)
    requires
        encode_utf8(password@).len() <= PASSWORD_MAX,
        8 <= salt@.len() <= 48,
    ensures
        r@ == argon2_phc(encode_utf8(password@), salt@),
        PHC_PREFIX@.is_prefix_of(r@),
        carries_salt(r@, salt@),
        accepts(r@, password@),
{
    argon2_hash(password.as_bytes(), salt)
}

/// Hashes a password with a salt of its own. The password has the hash.
pub fn hash_password(password: &str) -> (r: String)
    requires
        encode_utf8(password@).len() <= PASSWORD_MAX,
    ensures
        accepts(r@, password@),
        PHC_PREFIX@.is_prefix_of(r@),
        exists|salt: Seq<u8>|
            salt.len() == SALT_BYTES && r@ == #[trigger] argon2_phc(encode_utf8(password@), salt)
                && carries_salt(r@, salt),
{
    let salt = generate_salt();
    hash_with_salt(password, salt.as_slice())
}

/// Whether the lane count of a PHC string has at most eight digits.
pub fn lanes_are_few(hash: &str) -> (r: bool)
    ensures
        r == lanes_fit(hash@),
{
    let x = characters(hash);
    let mut at: usize = x.len();
    while at > 0
        invariant
            at <= x.len(),
            x@ == hash@,
            forall|later: int| at <= later ==> !names_lanes(hash@, later),
        decreases at,
    {
        at = at - 1;
        if x.len() - at >= 2 && x[at] == 'p' && x[at + 1] == '=' {
            proof {
                assert(names_lanes(hash@, at as int));
            }
            if x.len() - at < 11 {
                return true;
            }
            let mut i: usize = at + 2;
            while i < at + 11
                invariant
                    at + 2 <= i <= at + 11 <= x.len(),
                    x@ == hash@,
                    names_lanes(hash@, at as int),
                    forall|later: int| at < later ==> !names_lanes(hash@, later),
                    forall|j: int| at + 2 <= j < i ==> is_digit(#[trigger] x@[j]),
                decreases at + 11 - i,
            {
                if x[i] < '0' || x[i] > '9' {
                    proof {
                        assert(hash@.subrange(at + 2, at + 11)[i - at - 2] == x@[i as int]);
                    }
                    return true;
                }
                i = i + 1;
            }
            proof {
                assert(lanes_exceed_at(hash@, at as int));
            }
            return false;
        }
    }
    true
}

/// Whether a verdict lets the password pass; a hash that cannot be read does not.
pub fn verdict_passes(verdict: Option<bool>) -> (r: bool)
    ensures
        r == (verdict == Some(true)),
{
    match verdict {
        Some(same) => same,
        None => false,
    }
}

/// Whether the password has the hash; never where the hash cannot be read or
/// asks for more lanes than there can be.
pub fn verify_password(hash: &str, password: &str) -> (r: bool)
    ensures
        r == accepts(hash@, password@),
{
    if !lanes_are_few(hash) {
        return false;
    }
    verdict_passes(argon2_verify(hash, password.as_bytes()))
}

/// The sizes that keys, nonces, tags, salts, texts and passwords have or are held
/// to, and how a hash begins.
pub proof fn law_sizes()
    ensures
        KEY_BYTES == 32,
        NONCE_BYTES == 12,
        TAG_BYTES == 16,
        SALT_BYTES == 16,
        PLAINTEXT_MAX == 68_719_476_736,
        PASSWORD_MAX == 4_294_967_295,
        PHC_PREFIX@ == "$argon2id$v=19$m=19456,t=2,p=1$"@,
{
}

/// The model of a key is its bytes, and a key is well formed exactly if there are
/// 32 of them.
pub proof fn law_key_view(key: MasterKey)
    ensures
        key@ == key.bytes@,
        key.wf() <==> key.bytes@.len() == 32,
{
}

/// Stored bytes are a nonce of 12 bytes and the ciphertext behind it; what is
/// shorter than a nonce holds nothing.
pub proof fn law_stored_bytes_are_nonce_and_ciphertext(
    key: Seq<u8>,
    nonce: Seq<u8>,
    ciphertext: Seq<u8>,
    short: Seq<u8>,
)
    requires
        nonce.len() == 12,
        short.len() < 12,
    ensures
        decrypted(key, nonce + ciphertext) == opened_text(aes_gcm_opened(key, nonce, ciphertext)),
        decrypted(key, short) is None,
{
    assert((nonce + ciphertext).take(12) =~= nonce);
    assert((nonce + ciphertext).skip(12) =~= ciphertext);
}

/// Decrypted bytes hold the text that they encode, and none where decryption
/// failed or they encode no text.
pub proof fn law_opened_text(text: Seq<char>, bytes: Seq<u8>)
    ensures
        opened_text(Some(encode_utf8(text))) == Some(text),
        opened_text(None) is None,
        !valid_utf8(bytes) ==> opened_text(Some(bytes)) is None,
{
    encode_utf8_valid_utf8(text);
    encode_utf8_decode_utf8(text);
}

/// A hash accepts a password exactly if its lane count fits and Argon2 finds that
/// the password has it.
pub proof fn law_accepted_is_verified(hash: Seq<char>, password: Seq<char>)
    ensures
        accepts(hash, password) ==> argon2_verdict(hash, encode_utf8(password)) == Some(true),
        lanes_fit(hash) && argon2_verdict(hash, encode_utf8(password)) == Some(true) ==> accepts(
            hash,
            password,
        ),
        accepts(hash, password) ==> lanes_fit(hash),
{
}

/// No lane count begins in the text.
pub open spec fn without_lanes(text: Seq<char>) -> bool {
    forall|k: int|
        0 <= k < text.len() - 1 ==> !(#[trigger] text[k] == 'p' && text[k + 1] == '=')
}

/// The digits behind the last `p=` of a text decide whether its lane count fits:
/// eight of them do, nine do not.
pub proof fn law_eight_digits_of_lanes_fit(before: Seq<char>, digits: Seq<char>, after: Seq<char>)
    requires
        all_digits(digits),
        without_lanes(after),
        after.len() > 0 ==> !is_digit(after[0]),
    ensures
        lanes_fit(before + seq!['p', '='] + digits + after) <==> digits.len() <= 8,
{
    let text = before + seq!['p', '='] + digits + after;
    let at = before.len() as int;
    let end = at + 2 + digits.len();
    assert(text[at] == 'p' && text[at + 1] == '=');
    assert(names_lanes(text, at));
    assert forall|later: int| at < later implies !names_lanes(text, later) by {
        if later + 1 < text.len() {
            if later == at + 1 {
                assert(text[later] == '=');
            } else if later < end {
                assert(text[later] == digits[later - at - 2]);
                assert(is_digit(digits[later - at - 2]));
            } else {
                assert(text[later] == after[later - end]);
                assert(text[later + 1] == after[later + 1 - end]);
            }
        }
    }
    if digits.len() <= 8 {
        assert forall|k: int| !lanes_exceed_at(text, k) by {
            if lanes_exceed_at(text, k) {
                assert(k == at);
                let run = text.subrange(at + 2, at + 11);
                let i = digits.len() as int;
                assert(run[i] == text[end]);
                assert(text[end] == after[0]);
                assert(is_digit(run[i]));
            }
        }
    } else {
        let run = text.subrange(at + 2, at + 11);
        assert forall|i: int| 0 <= i < run.len() implies is_digit(#[trigger] run[i]) by {
            assert(run[i] == digits[i]);
        }
        assert(lanes_exceed_at(text, at));
    }
}

/// A text without a lane count fits.
pub proof fn law_no_lanes_fit(text: Seq<char>)
    requires
        without_lanes(text),
    ensures
        lanes_fit(text),
{
    assert forall|at: int| !lanes_exceed_at(text, at) by {
        if names_lanes(text, at) {
            assert(text[at] == 'p');
        }
    }
}

} // verus!
