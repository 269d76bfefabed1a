//! The authenticated-encryption envelope: sealing and opening document bytes under a
//! 256-bit key with a fresh 96-bit nonce per sealing, and the key's stored form.
use vstd::prelude::*;

verus! {

/// Bytes of nonce the cipher takes.
pub const NONCE_SIZE: usize = 12;

/// Bytes of key the cipher takes.
pub const KEY_SIZE: usize = 32;

/// Bytes of authentication tag the cipher appends.
pub const TAG_SIZE: usize = 16;

/// Longest plaintext the cipher seals, in bytes.
pub const MAX_PLAINTEXT: u64 = 68719476736;

/// The on-disk envelope around an encrypted document.
#[derive(Debug, Clone)]
pub struct EncryptedData {
    pub version: String,
    pub encrypted: bool,
    pub algorithm: String,
    pub nonce: Vec<u8>,
    pub ciphertext: Vec<u8>,
}

/// Why sealing, opening or obtaining a key failed.
#[derive(Debug, PartialEq, Eq, Structural, Clone, Copy)]
pub enum EncryptionError {
    /// Encryption is not enabled for this manager.
    NotEnabled,
    /// The envelope says its content is not encrypted.
    NotEncrypted,
    /// The envelope names a cipher other than the supported one.
    UnsupportedAlgorithm,
    /// A key that is not 32 bytes long.
    InvalidKeySize,
    /// A nonce that is not 12 bytes long.
    InvalidNonceSize,
    /// The stored key is not valid base64.
    KeyDecodeFailed,
    /// The operating system's random source failed.
    RandomSourceFailed,
    /// The cipher refused the plaintext.
    EncryptionFailed,
    /// The ciphertext does not authenticate under the key and nonce.
    DecryptionFailed,
}

/// Seals and opens envelopes when enabled.
pub struct EncryptionManager {
    enabled: bool,
}

pub open spec fn envelope_version() -> Seq<char> {
    seq!['1']
}

pub open spec fn algorithm_name() -> Seq<char> {
    seq!['A', 'E', 'S', '-', '2', '5', '6', '-', 'G', 'C', 'M']
}

/// The AES-256-GCM ciphertext, tag appended, of `plaintext` under `key` and `nonce`.
pub uninterp spec fn aes256gcm_seal(key: Seq<u8>, nonce: Seq<u8>, plaintext: Seq<u8>) -> Seq<u8>;

/// The bytes a standard, padded base64 text decodes to, if it is valid.
pub uninterp spec fn base64_bytes(s: Seq<char>) -> Option<Seq<u8>>;

/// Relies on `aes_gcm::Aes256Gcm` (`KeyInit::new_from_slice`, `Aead::encrypt`):
/// sealing is a function of key, nonce and plaintext, fails exactly for a plaintext over
/// 2^36 bytes, and appends a 16-byte tag to a ciphertext as long as the plaintext.
#[verifier::external_body]
fn aes_seal(key: &[u8], nonce: &[u8], plaintext: &[u8]) -> (r: Option<Vec<u8>>)
    requires
        key@.len() == KEY_SIZE,
        nonce@.len() == NONCE_SIZE,
    ensures
        r is Some <==> plaintext@.len() <= MAX_PLAINTEXT,
        r is Some ==> r->Some_0@ == aes256gcm_seal(key@, nonce@, plaintext@),
        r is Some ==> r->Some_0@.len() == plaintext@.len() + TAG_SIZE,
{
    let cipher = <aes_gcm::Aes256Gcm as aes_gcm::KeyInit>::new_from_slice(key).ok()?;
    aes_gcm::aead::Aead::encrypt(&cipher, aes_gcm::Nonce::from_slice(nonce), plaintext).ok()
}

/// Relies on `aes_gcm::Aes256Gcm` (`KeyInit::new_from_slice`, `Aead::decrypt`): opening
/// succeeds exactly on a ciphertext whose tag matches, and then sealing the result again
/// gives that ciphertext back.
#[verifier::external_body]
fn aes_open(key: &[u8], nonce: &[u8], ciphertext: &[u8]) -> (r: Option<Vec<u8>>)
    requires
        key@.len() == KEY_SIZE,
        nonce@.len() == NONCE_SIZE,
    ensures
        r is Some ==> ciphertext@ == aes256gcm_seal(key@, nonce@, r->Some_0@),
        forall|p: Seq<u8>|
            p.len() <= MAX_PLAINTEXT && ciphertext@ == #[trigger] aes256gcm_seal(key@, nonce@, p)
                ==> r is Some && r->Some_0@ == p,
{
    let cipher = <aes_gcm::Aes256Gcm as aes_gcm::KeyInit>::new_from_slice(key).ok()?;
    aes_gcm::aead::Aead::decrypt(&cipher, aes_gcm::Nonce::from_slice(nonce), ciphertext).ok()
}

/// Relies on `rand::rngs::OsRng` (`RngCore::try_fill_bytes`): `n` bytes from the
/// operating system's random source, or `None` where that source fails.
#[verifier::external_body]
pub(crate) fn os_random_bytes(n: usize) -> (r: Option<Vec<u8>>)
    ensures
        r is Some ==> r->Some_0@.len() == n,
{
    let mut buf = vec![0u8; n];
    rand::RngCore::try_fill_bytes(&mut rand::rngs::OsRng, &mut buf).ok().map(|_| buf)
}

/// Relies on `base64::engine::general_purpose::STANDARD` (`Engine::encode`): the
/// padded text it writes decodes back to the bytes.
#[verifier::external_body]
pub(crate) fn base64_encode(b: &[u8]) -> (r: String)
    ensures
        base64_bytes(r@) == Some(b@),
{
    base64::Engine::encode(&base64::engine::general_purpose::STANDARD, b)
}

/// Relies on `base64::engine::general_purpose::STANDARD` (`Engine::decode`).
#[verifier::external_body]
pub(crate) fn base64_decode(s: &str) -> (r: Option<Vec<u8>>)
    ensures
        match r {
            Some(v) => base64_bytes(s@) == Some(v@),
            None => base64_bytes(s@) is None,
        },
{
    base64::Engine::decode(&base64::engine::general_purpose::STANDARD, s).ok()
}

/// `e` is the version-1 AES-256-GCM envelope of `plaintext` sealed under `key` and
/// `nonce`: the ciphertext is the sealing, 16 bytes longer than the plaintext, and the
/// plaintext is within the cipher's limit.
pub open spec fn sealed_envelope(e: EncryptedData, key: Seq<u8>, nonce: Seq<u8>, plaintext: Seq<u8>) -> bool {
    &&& e.version@ == envelope_version()
    &&& e.encrypted
    &&& e.algorithm@ == algorithm_name()
    &&& e.nonce@ == nonce
    &&& plaintext.len() <= MAX_PLAINTEXT
    &&& e.ciphertext@ == aes256gcm_seal(key, nonce, plaintext)
    &&& e.ciphertext@.len() == plaintext.len() + TAG_SIZE
}

/// The first check an envelope fails before any cryptographic work, if any.
pub open spec fn open_precheck(enabled: bool, e: EncryptedData, key: Seq<u8>) -> Option<
    EncryptionError,
> {
    if !enabled {
        Some(EncryptionError::NotEnabled)
    } else if !e.encrypted {
        Some(EncryptionError::NotEncrypted)
    } else if e.algorithm@ != algorithm_name() {
        Some(EncryptionError::UnsupportedAlgorithm)
    } else if key.len() != KEY_SIZE {
        Some(EncryptionError::InvalidKeySize)
    } else if e.nonce@.len() != NONCE_SIZE {
        Some(EncryptionError::InvalidNonceSize)
    } else {
        None
    }
}

/// What the stored form of a key decodes to.
pub open spec fn stored_key_outcome(stored: Seq<char>) -> Result<Seq<u8>, EncryptionError> {
    match base64_bytes(stored) {
        None => Err(EncryptionError::KeyDecodeFailed),
        Some(k) => if k.len() != KEY_SIZE {
            Err(EncryptionError::InvalidKeySize)
        } else {
            Ok(k)
        },
    }
}

/// A fresh random key.
pub fn generate_key() -> (r: Result<Vec<u8>, EncryptionError>)
    ensures
        match r {
            Ok(k) => k@.len() == KEY_SIZE,
            Err(e) => e == EncryptionError::RandomSourceFailed,
        },
{
    match os_random_bytes(KEY_SIZE) {
        Some(k) => Ok(k),
        None => Err(EncryptionError::RandomSourceFailed),
    }
}

/// The form a key is kept in by the secret store: base64 text, which decodes back to
/// the key.
pub fn encode_key_for_store(key: &[u8]) -> (r: String)
    ensures
        base64_bytes(r@) == Some(key@),
{
    base64_encode(key)
}

/// The key held in its stored form: it must decode and be 32 bytes long.
pub fn decode_stored_key(stored: &str) -> (r: Result<Vec<u8>, EncryptionError>)
    ensures
        match r {
            Ok(k) => stored_key_outcome(stored@) == Ok::<Seq<u8>, EncryptionError>(k@),
            Err(e) => stored_key_outcome(stored@) == Err::<Seq<u8>, EncryptionError>(e),
        },
{
    match base64_decode(stored) {
        None => Err(EncryptionError::KeyDecodeFailed),
        Some(k) => {
            if k.len() != KEY_SIZE {
                Err(EncryptionError::InvalidKeySize)
            } else {
                Ok(k)
            }
        },
    }
}

impl EncryptionManager {
    pub closed spec fn enabled_spec(&self) -> bool {
        self.enabled
    }

    pub fn new(enabled: bool) -> (r: Self)
        ensures
            r.enabled_spec() == enabled,
    {
        EncryptionManager { enabled }
    }

    pub fn is_enabled(&self) -> (r: bool)
        ensures
            r == self.enabled_spec(),
    {
        self.enabled
    }

    /// Seals `plaintext` under `key` and the given `nonce` into a version-1 AES-256-GCM
    /// envelope.
    pub fn seal_with_nonce(&self, key: &[u8], nonce: Vec<u8>, plaintext: &[u8]) -> (r: Result<
        EncryptedData,
        EncryptionError,
    >)
        ensures
            !self.enabled_spec() ==> r == Err::<EncryptedData, EncryptionError>(
                EncryptionError::NotEnabled,
            ),
            self.enabled_spec() && key@.len() != KEY_SIZE ==> r == Err::<
                EncryptedData,
                EncryptionError,
            >(EncryptionError::InvalidKeySize),
            self.enabled_spec() && key@.len() == KEY_SIZE && nonce@.len() != NONCE_SIZE ==> r
                == Err::<EncryptedData, EncryptionError>(EncryptionError::InvalidNonceSize),
            self.enabled_spec() && key@.len() == KEY_SIZE && nonce@.len() == NONCE_SIZE ==> (r
                == Err::<EncryptedData, EncryptionError>(EncryptionError::EncryptionFailed)
                <==> plaintext@.len() > MAX_PLAINTEXT),
            self.enabled_spec() && key@.len() == KEY_SIZE && nonce@.len() == NONCE_SIZE
                && plaintext@.len() <= MAX_PLAINTEXT ==> r is Ok,
            r is Ok ==> sealed_envelope(r->Ok_0, key@, nonce@, plaintext@),
    {
        if !self.enabled {
            return Err(EncryptionError::NotEnabled);
        }
        if key.len() != KEY_SIZE {
            return Err(EncryptionError::InvalidKeySize);
        }
        if nonce.len() != NONCE_SIZE {
            return Err(EncryptionError::InvalidNonceSize);
        }
        let ciphertext = match aes_seal(key, nonce.as_slice(), plaintext) {
            Some(c) => c,
            None => {
                return Err(EncryptionError::EncryptionFailed);
            },
        };
        proof {
            reveal_strlit("1");
            reveal_strlit("AES-256-GCM");
        }
        let version = String::from_str("1");
        let algorithm = String::from_str("AES-256-GCM");
        assert(version@ =~= envelope_version());
        assert(algorithm@ =~= algorithm_name());
        Ok(EncryptedData { version, encrypted: true, algorithm, nonce, ciphertext })
    }

    /// Seals `plaintext` under `key` with a nonce drawn fresh from the operating
    /// system's random source, into a version-1 AES-256-GCM envelope.
    pub fn encrypt(&self, key: &[u8], plaintext: &[u8]) -> (r: Result<
        EncryptedData,
        EncryptionError,
    >)
        ensures
            !self.enabled_spec() ==> r == Err::<EncryptedData, EncryptionError>(
                EncryptionError::NotEnabled,
            ),
            self.enabled_spec() && key@.len() != KEY_SIZE ==> r == Err::<
                EncryptedData,
                EncryptionError,
            >(EncryptionError::InvalidKeySize),
            self.enabled_spec() && key@.len() == KEY_SIZE && plaintext@.len() > MAX_PLAINTEXT
                ==> r is Err,
            self.enabled_spec() && key@.len() == KEY_SIZE && plaintext@.len() <= MAX_PLAINTEXT
                ==> r is Ok || r == Err::<EncryptedData, EncryptionError>(
                EncryptionError::RandomSourceFailed,
            ),
            match r {
                Ok(e) => e.nonce@.len() == NONCE_SIZE && sealed_envelope(e, key@, e.nonce@, plaintext@),
                Err(err) => err == EncryptionError::NotEnabled || err
                    == EncryptionError::InvalidKeySize || err == EncryptionError::RandomSourceFailed
                    || err == EncryptionError::EncryptionFailed,
            },
    {
        if !self.enabled {
            return Err(EncryptionError::NotEnabled);
        }
        if key.len() != KEY_SIZE {
            return Err(EncryptionError::InvalidKeySize);
        }
        let nonce = match os_random_bytes(NONCE_SIZE) {
            Some(n) => n,
            None => {
                return Err(EncryptionError::RandomSourceFailed);
            },
        };
        self.seal_with_nonce(key, nonce, plaintext)
    }

    /// Opens an envelope under `key`. The envelope's flag, algorithm and nonce length are
    /// checked before any cryptographic attempt; opening then succeeds exactly where the
    /// ciphertext is the sealing of some plaintext under this key and nonce, and gives
    /// that plaintext back.
    pub fn decrypt(&self, key: &[u8], encrypted: &EncryptedData) -> (r: Result<
        Vec<u8>,
        EncryptionError,
    >)
        ensures
            match open_precheck(self.enabled_spec(), *encrypted, key@) {
                Some(err) => r == Err::<Vec<u8>, EncryptionError>(err),
                None => {
                    &&& (r is Ok ==> encrypted.ciphertext@ == aes256gcm_seal(
                        key@,
                        encrypted.nonce@,
                        r->Ok_0@,
                    ))
                    &&& (r is Err ==> r == Err::<Vec<u8>, EncryptionError>(
                        EncryptionError::DecryptionFailed,
                    ))
                    &&& forall|p: Seq<u8>|
                        p.len() <= MAX_PLAINTEXT && encrypted.ciphertext@ == #[trigger] aes256gcm_seal(
                            key@,
                            encrypted.nonce@,
                            p,
                        ) ==> r is Ok && r->Ok_0@ == p
                },
            },
    {
        if !self.enabled {
            return Err(EncryptionError::NotEnabled);
        }
        if !encrypted.encrypted {
            return Err(EncryptionError::NotEncrypted);
        }
        proof {
            reveal_strlit("AES-256-GCM");
        }
        assert("AES-256-GCM"@ =~= algorithm_name());
        if !crate::storage::str_eq(encrypted.algorithm.as_str(), "AES-256-GCM") {
            return Err(EncryptionError::UnsupportedAlgorithm);
        }
        if key.len() != KEY_SIZE {
            return Err(EncryptionError::InvalidKeySize);
        }
        if encrypted.nonce.len() != NONCE_SIZE {
            return Err(EncryptionError::InvalidNonceSize);
        }
        match aes_open(key, encrypted.nonce.as_slice(), encrypted.ciphertext.as_slice()) {
            Some(p) => Ok(p),
            None => Err(EncryptionError::DecryptionFailed),
        }
    }
}

/// Every envelope that `encrypt` or `seal_with_nonce` returns passes the checks that
/// `decrypt` makes before any cryptographic work, and its ciphertext is the sealing of a
/// plaintext within the cipher's limit; `decrypt` therefore gives that plaintext back.
pub proof fn lemma_sealed_envelope_opens(e: EncryptedData, key: Seq<u8>, nonce: Seq<u8>, plaintext: Seq<u8>)
    requires
        sealed_envelope(e, key, nonce, plaintext),
        key.len() == KEY_SIZE,
        nonce.len() == NONCE_SIZE,
    ensures
        open_precheck(true, e, key) is None,
        plaintext.len() <= MAX_PLAINTEXT,
        e.ciphertext@ == aes256gcm_seal(key, e.nonce@, plaintext),
{
}

} // verus!
