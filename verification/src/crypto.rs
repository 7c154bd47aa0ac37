use vstd::prelude::*;
use vstd::string::StrSliceExecFns;
use vstd::string::StringExecFns;
use vstd::utf8::encode_utf8;
use vstd::utf8::valid_utf8;

use crate::errors::ServiceError;

verus! {

broadcast use vstd::string::group_string_axioms;

// ---------------------------------------------------------------------
// Trusted views of the cryptographic collaborators
// ---------------------------------------------------------------------
/// The HKDF-SHA-256 output for the given salt, input key material, info
/// string and output length.
pub uninterp spec fn hkdf_sha256_of(salt: Seq<u8>, ikm: Seq<u8>, info: Seq<u8>, len: nat) -> Seq<
    u8,
>;

/// Relies on hkdf::Hkdf::<sha2::Sha256>::new and Hkdf::expand (RFC
/// 5869): the derived key depends on the salt, the input key material,
/// the info string and the requested length alone, and expand fails
/// exactly when more than 255 hash blocks — 8160 bytes — are requested.
#[verifier::external_body]
fn hkdf_sha256(salt: &Vec<u8>, ikm: &Vec<u8>, info: &Vec<u8>, okm_len: usize) -> (r: Option<
    Vec<u8>,
>)
    ensures
        r is Some <==> okm_len <= 8160,
        r matches Some(k) ==> k@ == hkdf_sha256_of(salt@, ikm@, info@, okm_len as nat)
            && k@.len() == okm_len,
{
    let hk = hkdf::Hkdf::<sha2::Sha256>::new(Some(salt.as_slice()), ikm.as_slice());
    let mut okm = vec![0u8; okm_len];
    match hk.expand(info.as_slice(), &mut okm) {
        Ok(()) => Some(okm),
        Err(_) => None,
    }
}

/// The AES-256-GCM ciphertext (tag appended) for the given key, nonce
/// and plaintext.
pub uninterp spec fn aes256gcm_seal_of(key: Seq<u8>, nonce: Seq<u8>, plaintext: Seq<u8>) -> Seq<
    u8,
>;

/// Relies on aes_gcm::Aes256Gcm with the aead::Aead interface
/// (AES-256-GCM, 96-bit nonce, 128-bit tag): the ciphertext depends on
/// key, nonce and plaintext alone, carries the 16-byte tag appended,
/// and encryption fails exactly for plaintexts over 2^36 bytes.
#[verifier::external_body]
fn aes256gcm_seal(key: &Vec<u8>, nonce: &Vec<u8>, plaintext: &Vec<u8>) -> (r: Option<Vec<u8>>)
    requires
        key@.len() == 32,
        nonce@.len() == 12,
    ensures
        r is Some <==> plaintext@.len() <= 0x10_0000_0000,
        r matches Some(ct) ==> ct@ == aes256gcm_seal_of(key@, nonce@, plaintext@) && ct@.len()
            == plaintext@.len() + 16,
{
    let cipher = <aes_gcm::Aes256Gcm as aes_gcm::KeyInit>::new(aes_gcm::Key::<
        aes_gcm::Aes256Gcm,
    >::from_slice(key.as_slice()));
    match aes_gcm::aead::Aead::encrypt(
        &cipher,
        aes_gcm::Nonce::from_slice(nonce.as_slice()),
        plaintext.as_slice(),
    ) {
        Ok(ct) => Some(ct),
        Err(_) => None,
    }
}

/// The AES-256-GCM decryption outcome for the given key, nonce and
/// ciphertext: the plaintext when the tag authenticates, nothing
/// otherwise.
pub uninterp spec fn aes256gcm_open_of(key: Seq<u8>, nonce: Seq<u8>, ciphertext: Seq<u8>) -> Option<
    Seq<u8>,
>;

/// Relies on aes_gcm::Aes256Gcm with the aead::Aead interface: the
/// decryption outcome depends on key, nonce and ciphertext alone.
#[verifier::external_body]
fn aes256gcm_open(key: &Vec<u8>, nonce: &Vec<u8>, ciphertext: &Vec<u8>) -> (r: Option<Vec<u8>>)
    requires
        key@.len() == 32,
        nonce@.len() == 12,
    ensures
        r matches Some(pt) ==> aes256gcm_open_of(key@, nonce@, ciphertext@) == Some(pt@),
        r is None ==> aes256gcm_open_of(key@, nonce@, ciphertext@) is None,
{
    let cipher = <aes_gcm::Aes256Gcm as aes_gcm::KeyInit>::new(aes_gcm::Key::<
        aes_gcm::Aes256Gcm,
    >::from_slice(key.as_slice()));
    match aes_gcm::aead::Aead::decrypt(
        &cipher,
        aes_gcm::Nonce::from_slice(nonce.as_slice()),
        ciphertext.as_slice(),
    ) {
        Ok(pt) => Some(pt),
        Err(_) => None,
    }
}

/// The standard base64 encoding of the given bytes.
pub uninterp spec fn b64_of(bytes: Seq<u8>) -> Seq<char>;

/// The standard base64 decoding outcome of the given text.
pub uninterp spec fn b64_decode_of(s: Seq<char>) -> Option<Seq<u8>>;

/// Relies on base64's STANDARD engine encode: the encoding depends on
/// the bytes alone, and decoding it restores exactly those bytes.
#[verifier::external_body]
fn b64_encode(bytes: &Vec<u8>) -> (r: String)
    ensures
        r@ == b64_of(bytes@),
        b64_decode_of(r@) == Some(bytes@),
        r@.len() > 0 <==> bytes@.len() > 0,
{
    base64::Engine::encode(&base64::engine::general_purpose::STANDARD, bytes.as_slice())
}

/// Relies on base64's STANDARD engine decode: the decoding outcome
/// depends on the text alone.
#[verifier::external_body]
fn b64_decode(s: &str) -> (r: Option<Vec<u8>>)
    ensures
        r matches Some(b) ==> b64_decode_of(s@) == Some(b@),
        r is None ==> b64_decode_of(s@) is None,
{
    match base64::Engine::decode(&base64::engine::general_purpose::STANDARD, s) {
        Ok(b) => Some(b),
        Err(_) => None,
    }
}

/// Relies on getrandom::getrandom: fills a fresh 12-byte nonce from the
/// operating system's entropy source. The value depends on that source,
/// so only its length is promised.
#[verifier::external_body]
fn random_nonce12() -> (r: Option<Vec<u8>>)
    ensures
        r matches Some(n) ==> n@.len() == 12,
{
    let mut buf = [0u8; 12];
    match getrandom::getrandom(&mut buf) {
        Ok(()) => Some(buf.to_vec()),
        Err(_) => None,
    }
}

/// Relies on alloc::string::String::from_utf8: succeeds exactly on
/// valid UTF-8, returning the string those bytes encode.
#[verifier::external_body]
fn string_from_utf8(bytes: Vec<u8>) -> (r: Option<String>)
    ensures
        r is Some <==> valid_utf8(bytes@),
        r matches Some(s) ==> encode_utf8(s@) == bytes@,
{
    match String::from_utf8(bytes) {
        Ok(s) => Some(s),
        Err(_) => None,
    }
}

// ---------------------------------------------------------------------
// The cipher
// ---------------------------------------------------------------------
/// The local authenticated-encryption routine: AES-256-GCM over a key
/// derived from the password by HKDF-SHA-256, the 12-byte random nonce
/// prepended to the ciphertext and the whole base64-encoded.
#[derive(Debug, Clone)]
pub struct EncryptionUtils {
    algorithm: String,
    key_length: u32,
    iterations: u32,
    salt: Vec<u8>,
}

impl EncryptionUtils {
    pub closed spec fn spec_algorithm(self) -> Seq<char> {
        self.algorithm@
    }

    pub closed spec fn spec_key_length(self) -> u32 {
        self.key_length
    }

    pub closed spec fn spec_iterations(self) -> u32 {
        self.iterations
    }

    pub closed spec fn spec_salt(self) -> Seq<u8> {
        self.salt@
    }

    /// The key that `encrypt` and `decrypt` derive from a password.
    pub open spec fn spec_derived_key(self, password: Seq<char>) -> Seq<u8> {
        hkdf_sha256_of(
            self.spec_salt(),
            encode_utf8(password),
            encode_utf8("encryption"@),
            self.spec_key_length() as nat,
        )
    }

    /// A cipher configured with the given algorithm name, key length,
    /// iteration count and salt (taken as its UTF-8 bytes).
    pub fn new(algorithm: String, key_length: u32, iterations: u32, salt: String) -> (r: Self)
        ensures
            r.spec_algorithm() == algorithm@,
            r.spec_key_length() == key_length,
            r.spec_iterations() == iterations,
            r.spec_salt() == encode_utf8(salt@),
    {
        let salt_bytes = salt.as_str().as_bytes_vec();
        EncryptionUtils { algorithm, key_length, iterations, salt: salt_bytes }
    }

    /// Derives the encryption key for a password: HKDF-SHA-256 over the
    /// configured salt, expanded to the configured key length.
    pub fn generate_key(&self, password: &str) -> (r: Result<Vec<u8>, ServiceError>)
        ensures
            r is Ok <==> self.spec_key_length() <= 8160,
            r matches Ok(k) ==> k@ == self.spec_derived_key(password@) && k@.len()
                == self.spec_key_length(),
            r matches Err(e) ==> e == ServiceError::CipherFailure,
    {
        let info = "encryption".as_bytes_vec();
        let ikm = password.as_bytes_vec();
        match hkdf_sha256(&self.salt, &ikm, &info, self.key_length as usize) {
            Some(k) => Ok(k),
            None => Err(ServiceError::CipherFailure),
        }
    }

    /// The shape of a successful encryption: `ct` is the base64
    /// encoding of the 12-byte nonce followed by the AES-256-GCM
    /// sealing of the data under the key derived from the password; it
    /// decodes back to exactly those bytes, whose length is nonce plus
    /// plaintext plus the 16-byte tag.
    pub open spec fn spec_sealed_output(
        self,
        data: Seq<char>,
        password: Seq<char>,
        nonce: Seq<u8>,
        ct: Seq<char>,
    ) -> bool {
        let sealed = aes256gcm_seal_of(self.spec_derived_key(password), nonce, encode_utf8(data));
        &&& nonce.len() == 12
        &&& ct == b64_of(nonce + sealed)
        &&& b64_decode_of(ct) == Some(nonce + sealed)
        &&& (nonce + sealed).len() == 12 + encode_utf8(data).len() + 16
        &&& ct.len() > 0
    }

    /// A successful encryption of `data` under `password` produced
    /// `ct`: the configuration fits AES-256-GCM and some 12-byte nonce
    /// gives `ct` the sealed shape.
    pub open spec fn spec_encrypt_ok(self, data: Seq<char>, password: Seq<char>, ct: Seq<char>) -> bool {
        &&& self.spec_algorithm() == "aes-256-gcm"@
        &&& self.spec_key_length() == 32
        &&& exists|nonce: Seq<u8>|
            #[trigger] self.spec_sealed_output(data, password, nonce, ct)
    }

    /// Encrypts `data` under `password`: derives the key, draws a fresh
    /// 12-byte nonce, seals with AES-256-GCM and base64-encodes the
    /// nonce followed by the ciphertext. Fails when the configured
    /// algorithm is not "aes-256-gcm", when the configured key length
    /// does not fit AES-256, when the plaintext exceeds what the cipher
    /// accepts, or when the entropy source refuses.
    pub fn encrypt(&self, data: &str, password: &str) -> (r: Result<String, ServiceError>)
        ensures
            r matches Ok(ct) ==> self.spec_encrypt_ok(data@, password@, ct@),
            r matches Err(e) ==> e == ServiceError::CipherFailure,
            self.spec_algorithm() != "aes-256-gcm"@ ==> r is Err,
            self.spec_key_length() != 32 ==> r is Err,
            encode_utf8(data@).len() > 0x10_0000_0000 ==> r is Err,
    {
        if !(self.algorithm == String::from_str("aes-256-gcm")) {
            return Err(ServiceError::CipherFailure);
        }
        if self.key_length != 32 {
            return Err(ServiceError::CipherFailure);
        }
        let key = match self.generate_key(password) {
            Ok(k) => k,
            Err(e) => {
                return Err(e);
            },
        };
        let nonce = match random_nonce12() {
            Some(n) => n,
            None => {
                return Err(ServiceError::CipherFailure);
            },
        };
        let plaintext = data.as_bytes_vec();
        let mut ciphertext = match aes256gcm_seal(&key, &nonce, &plaintext) {
            Some(c) => c,
            None => {
                return Err(ServiceError::CipherFailure);
            },
        };
        let ghost nonce_view = nonce@;
        let mut combined = nonce;
        combined.append(&mut ciphertext);
        let encoded = b64_encode(&combined);
        proof {
            assert(combined@ == nonce_view + aes256gcm_seal_of(
                self.spec_derived_key(password@),
                nonce_view,
                encode_utf8(data@),
            ));
            assert(self.spec_sealed_output(data@, password@, nonce_view, encoded@));
            assert(self.spec_encrypt_ok(data@, password@, encoded@));
        }
        Ok(encoded)
    }

    /// What AES-256-GCM opens the given base64 text to under the key
    /// derived from `password`, when every stage goes through.
    pub open spec fn spec_opened(self, ct: Seq<char>, password: Seq<char>) -> Option<Seq<u8>> {
        match b64_decode_of(ct) {
            Some(combined) => if combined.len() >= 12 {
                aes256gcm_open_of(
                    self.spec_derived_key(password),
                    combined.take(12),
                    combined.skip(12),
                )
            } else {
                None
            },
            None => None,
        }
    }

    /// Exactly when decryption of `ct` under `password` succeeds.
    pub open spec fn spec_decrypt_ok(self, ct: Seq<char>, password: Seq<char>) -> bool {
        &&& self.spec_algorithm() == "aes-256-gcm"@
        &&& self.spec_key_length() == 32
        &&& self.spec_opened(ct, password) matches Some(ptb) && valid_utf8(ptb)
    }

    /// Decrypts base64-encoded ciphertext under `password`: decodes,
    /// splits off the 12-byte nonce, opens with AES-256-GCM and decodes
    /// the plaintext as UTF-8. Succeeds exactly when the configuration
    /// names "aes-256-gcm" with a 32-byte key, the text is valid
    /// base64 of at least 12 bytes, the tag authenticates under the
    /// derived key, and the plaintext is valid UTF-8; any other input
    /// is rejected as a cipher failure.
    pub fn decrypt(&self, encrypted_data: &str, password: &str) -> (r: Result<String, ServiceError>)
        ensures
            r is Ok <==> self.spec_decrypt_ok(encrypted_data@, password@),
            r matches Ok(pt) ==> self.spec_opened(encrypted_data@, password@) == Some(
                encode_utf8(pt@),
            ),
            r matches Err(e) ==> e == ServiceError::CipherFailure,
    {
        if !(self.algorithm == String::from_str("aes-256-gcm")) {
            return Err(ServiceError::CipherFailure);
        }
        if self.key_length != 32 {
            return Err(ServiceError::CipherFailure);
        }
        let mut combined = match b64_decode(encrypted_data) {
            Some(b) => b,
            None => {
                return Err(ServiceError::CipherFailure);
            },
        };
        if combined.len() < 12 {
            return Err(ServiceError::CipherFailure);
        }
        let ghost combined_view = combined@;
        let ciphertext = combined.split_off(12);
        let nonce = combined;
        proof {
            assert(nonce@ =~= combined_view.take(12));
            assert(ciphertext@ =~= combined_view.skip(12));
        }
        let key = match self.generate_key(password) {
            Ok(k) => k,
            Err(e) => {
                return Err(e);
            },
        };
        let plaintext_bytes = match aes256gcm_open(&key, &nonce, &ciphertext) {
            Some(p) => p,
            None => {
                return Err(ServiceError::CipherFailure);
            },
        };
        match string_from_utf8(plaintext_bytes) {
            Some(s) => Ok(s),
            None => Err(ServiceError::CipherFailure),
        }
    }
}

} // verus!
