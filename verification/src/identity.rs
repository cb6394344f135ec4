//! The identity file: a secret key as hexadecimal digits, or encrypted under
//! a passphrase.
//!
//! An encrypted file is the magic `linkp2p-k1`, a salt of 16 bytes, a nonce of
//! 24 bytes and the ciphertext. The key comes from the passphrase by Argon2id,
//! the cipher is XChaCha20-Poly1305 with the magic as associated data.

use chacha20poly1305::aead::{Aead, KeyInit, Payload};
use vstd::prelude::*;
use vstd::utf8::{decode_utf8, encode_utf8, valid_utf8};
use crate::bytes::{copy_range, push_all, same_bytes};
use crate::config::{config_dir_parts, config_file};
use crate::crockford::{groups, lemma_groups_len, lemma_spread_len, numbers, spread, zeros};
use crate::exit;
use crate::exit::Error;
use crate::i18n::{looked_up, lookup, said, say1, say2, Catalog};
use crate::paths::{Base, Location};
use crate::text::{
    decimal, decimal_of, hex, hex_of, is_space, text_from_utf8, trim, trim_end_of, trim_of,
    trim_start_of, utf8_refusal,
};

verus! {

/// Fewest characters of a passphrase.
pub const PASSPHRASE_MIN_LEN: usize = 8;

/// Most bytes of a passphrase.
pub const PASSPHRASE_MAX_LEN: usize = 1024;

/// Bytes of the salt.
pub const KEY_FILE_SALT_LEN: usize = 16;

/// Bytes of the nonce.
pub const KEY_FILE_NONCE_LEN: usize = 24;

/// Bytes by which an encrypted file exceeds what it holds.
pub const KEY_FILE_OVERHEAD: usize = 66;

/// Most bytes that the cipher takes: 2^32 - 2 blocks of 64.
pub const SEAL_LIMIT: u64 = 274_877_906_816;

/// Memory of the key derivation, in KiB.
pub const KDF_MEMORY_KIB: u32 = 19_456;

/// Passes of the key derivation.
pub const KDF_PASSES: u32 = 2;

/// Lanes of the key derivation.
pub const KDF_LANES: u32 = 1;

/// `linkp2p-k1`.
pub open spec fn key_file_magic() -> Seq<u8> {
    seq![0x6cu8, 0x69, 0x6e, 0x6b, 0x70, 0x32, 0x70, 0x2d, 0x6b, 0x31]
}

fn magic() -> (r: Vec<u8>)
    ensures
        r@ == key_file_magic(),
{
    let mut m: Vec<u8> = Vec::new();
    m.push(0x6c);
    m.push(0x69);
    m.push(0x6e);
    m.push(0x6b);
    m.push(0x70);
    m.push(0x32);
    m.push(0x70);
    m.push(0x2d);
    m.push(0x6b);
    m.push(0x31);
    proof {
        assert(m@ =~= key_file_magic());
    }
    m
}

/// Which file holds the identity.
#[derive(Clone, Copy, Debug, PartialEq, Eq, Structural)]
pub enum IdentityChoice {
    /// The one named on the command line.
    Explicit,
    /// The one in the configuration directory.
    Configured,
    /// The one in the working directory, to be moved to the configuration
    /// directory first.
    MigrateLegacy,
    /// The one in the working directory.
    Legacy,
}

/// The identity file to use: an explicit one wins; else the configured one,
/// unless only a legacy one exists, which is migrated.
pub fn resolve_identity_path(explicit: bool, configured_exists: bool, legacy_exists: bool) -> (r:
    IdentityChoice)
    ensures
        r == (if explicit {
            IdentityChoice::Explicit
        } else if !configured_exists && legacy_exists {
            IdentityChoice::MigrateLegacy
        } else {
            IdentityChoice::Configured
        }),
{
    if explicit {
        IdentityChoice::Explicit
    } else if configured_exists || !legacy_exists {
        IdentityChoice::Configured
    } else {
        IdentityChoice::MigrateLegacy
    }
}

/// The file to use after a migration. Where it failed the legacy file stays
/// in use, so that the identity does not change.
pub fn after_migration(migrated: bool) -> (r: IdentityChoice)
    ensures
        r == (if migrated {
            IdentityChoice::Configured
        } else {
            IdentityChoice::Legacy
        }),
{
    if migrated {
        IdentityChoice::Configured
    } else {
        IdentityChoice::Legacy
    }
}

/// The identity file in the configuration directory, or in the working
/// directory where there is none.
pub fn default_identity_path(xdg_set: bool, home_set: bool) -> (r: Location)
    ensures
        xdg_set || home_set ==> r.base == config_dir_parts(xdg_set, home_set).0 && r.names()
            == config_dir_parts(xdg_set, home_set).1.push("identity.key"@),
        !xdg_set && !home_set ==> r.base == Base::CurrentDir && r.names() == seq![
            "identity.key"@,
        ],
{
    if xdg_set || home_set {
        config_file(xdg_set, home_set, "identity.key")
    } else {
        let r = Location::at(Base::CurrentDir).join("identity.key");
        proof {
            assert(r.names() =~= seq!["identity.key"@]);
        }
        r
    }
}

/// Why a passphrase is refused: under eight characters, or over 1024 bytes.
pub open spec fn passphrase_refusal(
    catalog: Map<Seq<char>, Seq<char>>,
    passphrase: Seq<char>,
) -> Option<Seq<char>> {
    if passphrase.len() < PASSPHRASE_MIN_LEN {
        Some(
            said(
                catalog,
                "passphrase must be at least {0} characters (Unicode scalar values; you have {1})"@,
                seq![decimal_of(PASSPHRASE_MIN_LEN as nat), decimal_of(passphrase.len())],
            ),
        )
    } else if encode_utf8(passphrase).len() > PASSPHRASE_MAX_LEN {
        Some(
            said(
                catalog,
                "passphrase is too long (max {0} UTF-8 bytes, you have {1})"@,
                seq![
                    decimal_of(PASSPHRASE_MAX_LEN as nat),
                    decimal_of(encode_utf8(passphrase).len()),
                ],
            ),
        )
    } else {
        None
    }
}

/// Refuses, as usage errors, passphrases under eight characters and those
/// over 1024 bytes.
pub fn validate_passphrase(catalog: &Catalog, passphrase: &str) -> (r: Result<(), Error>)
    ensures
        match r {
            Ok(()) => passphrase_refusal(catalog@, passphrase@) is None,
            Err(e) => e.wf() && passphrase_refusal(catalog@, passphrase@) is Some && e@ == seq![
                (passphrase_refusal(catalog@, passphrase@)->0, Some(exit::USAGE)),
            ],
        },
{
    let count: usize = passphrase.unicode_len();
    let bytes: usize = passphrase.as_bytes().len();
    if count < PASSPHRASE_MIN_LEN {
        let text = say2(
            catalog,
            "passphrase must be at least {0} characters (Unicode scalar values; you have {1})",
            decimal(PASSPHRASE_MIN_LEN as u64),
            decimal(count as u64),
        );
        let ghost t = text@;
        let e = exit::coded(exit::USAGE, Error::msg(text));
        proof {
            assert(e@ =~= seq![(t, Some(exit::USAGE))]);
        }
        return Err(e);
    }
    if bytes > PASSPHRASE_MAX_LEN {
        let text = say2(
            catalog,
            "passphrase is too long (max {0} UTF-8 bytes, you have {1})",
            decimal(PASSPHRASE_MAX_LEN as u64),
            decimal(bytes as u64),
        );
        let ghost t = text@;
        let e = exit::coded(exit::USAGE, Error::msg(text));
        proof {
            assert(e@ =~= seq![(t, Some(exit::USAGE))]);
        }
        return Err(e);
    }
    Ok(())
}

/// Whether a file begins with the magic.
pub open spec fn is_encrypted(data: Seq<u8>) -> bool {
    data.len() >= 10 && data.take(10) == key_file_magic()
}

/// Whether a file is an encrypted identity.
pub fn is_encrypted_key(data: &[u8]) -> (r: bool)
    ensures
        r == is_encrypted(data@),
{
    if data.len() < 10 {
        return false;
    }
    let head = copy_range(data, 0, 10);
    let m = magic();
    proof {
        assert(data@.subrange(0, 10) =~= data@.take(10));
    }
    same_bytes(head.as_slice(), m.as_slice())
}

/// The character of Base64's standard alphabet for six bits.
pub open spec fn base64_char(v: nat) -> char {
    if v < 26 {
        (v + 65) as char
    } else if v < 52 {
        (v + 71) as char
    } else if v < 62 {
        (v - 4) as char
    } else if v == 62 {
        '+'
    } else {
        '/'
    }
}

/// Base64 without padding characters: six bits to a character, zero bits
/// behind the last.
pub open spec fn base64_of(data: Seq<u8>) -> Seq<char> {
    let bits = spread(numbers(data), 8);
    let fill = zeros(((6 - bits.len() % 6) % 6) as nat);
    groups(bits + fill, 6).map_values(|v: nat| base64_char(v))
}

/// `argon2::password_hash::phc::Salt::new` and `to_salt_string`: a salt of 8
/// to 48 bytes in Base64 without padding; other lengths are refused.
#[verifier::external_body]
fn salt_string(salt: &[u8]) -> (r: Option<String>)
    ensures
        r is Some == (8 <= salt@.len() <= 48),
        r matches Some(s) ==> s@ == base64_of(salt@),
{
    match argon2::password_hash::phc::Salt::new(salt) {
        Ok(s) => Some(s.to_salt_string().as_ref().to_owned()),
        Err(_) => None,
    }
}

/// The 32 bytes that Argon2id (version 0x13) derives.
pub uninterp spec fn argon2id_key(
    password: Seq<u8>,
    salt: Seq<u8>,
    memory_kib: u32,
    passes: u32,
    lanes: u32,
) -> Seq<u8>;

/// Whether a key derivation can fail with this reason: memory may be wanting
/// on any input, and a password of 4 GiB or more is refused.
pub open spec fn derivation_refusal(why: Seq<char>, password: Seq<u8>) -> bool {
    why == "out of memory"@ || (why == "password is too long"@ && password.len() > u32::MAX)
}

/// `argon2::Argon2::hash_password_into` with parameters that
/// `argon2::Params::new` accepts: where it succeeds, the result is the one
/// that `argon2id_key` names. It refuses a password of 4 GiB or more, and it
/// may fail on any other for want of memory; no other reason is left for a
/// salt of these lengths.
#[verifier::external_body]
fn argon2id(password: &[u8], salt: &[u8], memory_kib: u32, passes: u32, lanes: u32) -> (r: Result<
    [u8; 32],
    String,
>)
    requires
        8 <= salt@.len() <= u32::MAX,
        passes >= 1,
        1 <= lanes <= 0xff_ffff,
        memory_kib >= 8 * lanes,
    ensures
        r matches Ok(k) ==> password@.len() <= u32::MAX && k@ == argon2id_key(
            password@,
            salt@,
            memory_kib,
            passes,
            lanes,
        ),
        r matches Err(why) ==> derivation_refusal(why@, password@),
{
    let params = argon2::Params::new(memory_kib, passes, lanes, Some(32))
        .map_err(|e| format!("{e}"))?;
    let kdf = argon2::Argon2::new(argon2::Algorithm::Argon2id, argon2::Version::V0x13, params);
    let mut key = [0u8; 32];
    kdf.hash_password_into(password, salt, &mut key).map_err(|e| format!("{e}"))?;
    Ok(key)
}

/// `getrandom::fill`: replaces the bytes, keeping their number. What the
/// bytes are is left to chance; it may fail, with the reason in words.
#[verifier::external_body]
fn fill_random(buf: &mut Vec<u8>) -> (r: Result<(), String>)
    ensures
        final(buf)@.len() == old(buf)@.len(),
{
    getrandom::fill(buf.as_mut_slice()).map_err(|e| format!("{e}"))
}

/// The ciphertext and tag of XChaCha20-Poly1305.
pub uninterp spec fn sealed(key: Seq<u8>, nonce: Seq<u8>, aad: Seq<u8>, msg: Seq<u8>) -> Seq<u8>;

/// What XChaCha20-Poly1305 opens a ciphertext to, if its tag is right.
pub uninterp spec fn opened(key: Seq<u8>, nonce: Seq<u8>, aad: Seq<u8>, ct: Seq<u8>) -> Option<
    Seq<u8>,
>;

/// `XChaCha20Poly1305::encrypt`: the ciphertext that `sealed` names, 16 bytes
/// longer than the message, which opens to the message again under the same
/// key, nonce and associated data. It does not fail on messages that the
/// cipher's block counter can count.
#[verifier::external_body]
fn xchacha_seal(key: &[u8; 32], nonce: &[u8; 24], aad: &[u8], msg: &[u8]) -> (r: Option<Vec<u8>>)
    requires
        msg@.len() <= SEAL_LIMIT,
    ensures
        r is Some,
        r matches Some(ct) ==> ct@ == sealed(key@, nonce@, aad@, msg@) && ct@.len() == msg@.len()
            + 16 && opened(key@, nonce@, aad@, ct@) == Some(msg@),
{
    let cipher = chacha20poly1305::XChaCha20Poly1305::new(&chacha20poly1305::Key::from(*key));
    let nonce = chacha20poly1305::XNonce::from(*nonce);
    cipher.encrypt(&nonce, Payload { msg, aad }).ok()
}

/// `XChaCha20Poly1305::decrypt`: what `opened` names, and failure where the
/// tag does not fit. Longer ciphertexts than `xchacha_seal` gives are left
/// out: the block counter cannot count them.
#[verifier::external_body]
fn xchacha_open(key: &[u8; 32], nonce: &[u8; 24], aad: &[u8], ct: &[u8]) -> (r: Option<Vec<u8>>)
    requires
        ct@.len() <= SEAL_LIMIT + 16,
    ensures
        match r {
            Some(msg) => opened(key@, nonce@, aad@, ct@) == Some(msg@),
            None => opened(key@, nonce@, aad@, ct@) is None,
        },
{
    let cipher = chacha20poly1305::XChaCha20Poly1305::new(&chacha20poly1305::Key::from(*key));
    let nonce = chacha20poly1305::XNonce::from(*nonce);
    cipher.decrypt(&nonce, Payload { msg: ct, aad }).ok()
}

/// `zeroize::Zeroize::zeroize` on a key: every byte becomes zero.
#[verifier::external_body]
fn wipe_key(key: &mut [u8; 32])
    ensures
        forall|i: int| 0 <= i < 32 ==> final(key)@[i] == 0,
{
    zeroize::Zeroize::zeroize(key);
}

/// `zeroize::Zeroize::zeroize` on a string: it is overwritten and emptied.
#[verifier::external_body]
fn wipe_text(text: &mut String)
    ensures
        final(text)@ == Seq::<char>::empty(),
{
    zeroize::Zeroize::zeroize(text);
}

/// Why a key file could not be made or read.
#[derive(Clone, Copy, Debug, PartialEq, Eq, Structural)]
pub enum KeyError {
    /// There was no randomness for the salt.
    SaltEntropy,
    /// There was no randomness for the nonce.
    NonceEntropy,
    /// The key could not be derived.
    Derive,
    /// The cipher refused the text.
    Seal,
    /// The file is not encrypted.
    NotEncrypted,
    /// The file ends before its ciphertext.
    Truncated,
    /// The passphrase is wrong or the file was changed.
    Open,
    /// What the file holds is not UTF-8.
    NotUtf8,
    /// The key has this many bytes in place of 64.
    BadLength(usize),
    /// The key holds something else than hexadecimal digits.
    NonHex,
}

impl KeyError {
    /// The message without its numbers.
    pub open spec fn template(self) -> Seq<char> {
        match self {
            KeyError::SaltEntropy => "gathering entropy for identity salt (Unix: check /dev/urandom; containers/embedded may lack a CSPRNG)"@,
            KeyError::NonceEntropy => "gathering entropy for identity nonce (Unix: check /dev/urandom; containers/embedded may lack a CSPRNG)"@,
            KeyError::Derive => "deriving key from passphrase"@,
            KeyError::Seal => "encrypting identity file failed"@,
            KeyError::NotEncrypted => "identity file is not passphrase-encrypted"@,
            KeyError::Truncated => "identity file is truncated"@,
            KeyError::Open => "incorrect passphrase or corrupted identity file"@,
            KeyError::NotUtf8 => "decrypted identity file is not valid UTF-8"@,
            KeyError::BadLength(_) => "identity file exists but has unexpected length {0} (expected 64 hex chars)"@,
            KeyError::NonHex => "identity file exists but contains non-hex characters"@,
        }
    }

    /// Whether the message stands behind its cause in a report.
    pub open spec fn comes_last(self) -> bool {
        self is SaltEntropy || self is NonceEntropy || self is Derive
    }

    /// The message.
    pub open spec fn says(self, catalog: Map<Seq<char>, Seq<char>>) -> Seq<char> {
        match self {
            KeyError::BadLength(n) => said(catalog, self.template(), seq![decimal_of(n as nat)]),
            _ => looked_up(catalog, self.template()),
        }
    }

    /// The message.
    pub fn message(&self, catalog: &Catalog) -> (r: String)
        ensures
            r@ == self.says(catalog@),
    {
        match self {
            KeyError::SaltEntropy => lookup(
                catalog,
                "gathering entropy for identity salt (Unix: check /dev/urandom; containers/embedded may lack a CSPRNG)",
            ),
            KeyError::NonceEntropy => lookup(
                catalog,
                "gathering entropy for identity nonce (Unix: check /dev/urandom; containers/embedded may lack a CSPRNG)",
            ),
            KeyError::Derive => lookup(catalog, "deriving key from passphrase"),
            KeyError::Seal => lookup(catalog, "encrypting identity file failed"),
            KeyError::NotEncrypted => lookup(catalog, "identity file is not passphrase-encrypted"),
            KeyError::Truncated => lookup(catalog, "identity file is truncated"),
            KeyError::Open => lookup(catalog, "incorrect passphrase or corrupted identity file"),
            KeyError::NotUtf8 => lookup(catalog, "decrypted identity file is not valid UTF-8"),
            KeyError::BadLength(n) => say1(
                catalog,
                "identity file exists but has unexpected length {0} (expected 64 hex chars)",
                decimal(*n as u64),
            ),
            KeyError::NonHex => lookup(
                catalog,
                "identity file exists but contains non-hex characters",
            ),
        }
    }
}

/// Why a key file could not be made or read, with what an outside function
/// said of it.
#[derive(Debug)]
pub struct KeyFailure {
    pub kind: KeyError,
    pub cause: Option<String>,
}

/// A failure with the words of its cause.
pub struct KeyFailureView {
    pub kind: KeyError,
    pub cause: Option<Seq<char>>,
}

impl View for KeyFailure {
    type V = KeyFailureView;

    open spec fn view(&self) -> KeyFailureView {
        KeyFailureView {
            kind: self.kind,
            cause: match self.cause {
                Some(c) => Some(c@),
                None => None,
            },
        }
    }
}

impl KeyFailureView {
    /// A failure that has no cause but itself.
    pub open spec fn bare(kind: KeyError) -> KeyFailureView {
        KeyFailureView { kind, cause: None }
    }

    /// A failure for a reason.
    pub open spec fn with(kind: KeyError, cause: Seq<char>) -> KeyFailureView {
        KeyFailureView { kind, cause: Some(cause) }
    }

    /// What is reported: the message and then its cause. Where randomness or
    /// a key was wanting, the cause comes first.
    pub open spec fn chain(self, catalog: Map<Seq<char>, Seq<char>>) -> Seq<
        (Seq<char>, Option<i32>),
    > {
        let message = (self.kind.says(catalog), None::<i32>);
        match self.cause {
            None => seq![message],
            Some(c) => if self.kind.comes_last() {
                seq![(c, None::<i32>), message]
            } else {
                seq![message, (c, None::<i32>)]
            },
        }
    }
}

impl KeyFailure {
    fn bare(kind: KeyError) -> (r: KeyFailure)
        ensures
            r@ == KeyFailureView::bare(kind),
    {
        KeyFailure { kind, cause: None }
    }

    fn with(kind: KeyError, cause: String) -> (r: KeyFailure)
        ensures
            r@ == KeyFailureView::with(kind, cause@),
    {
        KeyFailure { kind, cause: Some(cause) }
    }

    /// What is reported.
    pub fn error(self, catalog: &Catalog) -> (r: Error)
        ensures
            r.wf(),
            r@ == self@.chain(catalog@),
    {
        let message = self.kind.message(catalog);
        let ghost m = message@;
        match self.cause {
            None => {
                let e = Error::msg(message);
                proof {
                    assert(e@ =~= seq![(m, None::<i32>)]);
                }
                e
            },
            Some(c) => {
                let ghost why = c@;
                let last = matches!(
                    self.kind,
                    KeyError::SaltEntropy | KeyError::NonceEntropy | KeyError::Derive
                );
                let e = if last {
                    Error::msg(message).context(c)
                } else {
                    Error::msg(c).context(message)
                };
                proof {
                    if last {
                        assert(e@ =~= seq![(why, None::<i32>), (m, None::<i32>)]);
                    } else {
                        assert(e@ =~= seq![(m, None::<i32>), (why, None::<i32>)]);
                    }
                }
                e
            },
        }
    }
}

/// The key that a passphrase gives with a salt.
pub open spec fn file_key(passphrase: Seq<char>, salt: Seq<u8>) -> Seq<u8> {
    argon2id_key(
        encode_utf8(passphrase),
        encode_utf8(base64_of(salt)),
        KDF_MEMORY_KIB,
        KDF_PASSES,
        KDF_LANES,
    )
}

proof fn lemma_salt_bytes(salt: Seq<u8>)
    requires
        salt.len() == KEY_FILE_SALT_LEN,
    ensures
        encode_utf8(base64_of(salt)).len() == 22,
{
    let bits = spread(numbers(salt), 8);
    let padded = bits + zeros(((6 - bits.len() % 6) % 6) as nat);
    lemma_spread_len(numbers(salt), 8);
    lemma_groups_len(padded, 6);
    let t = base64_of(salt);
    assert(t.len() == 22);
    assert(vstd::utf8::is_ascii_chars(t)) by {
        assert forall|i: int| 0 <= i < t.len() implies 0 <= #[trigger] t[i] as nat && (t[i] as nat)
            < 128 by {
            assert(t[i] == base64_char(groups(padded, 6)[i]));
        }
    }
    vstd::utf8::is_ascii_chars_encode_utf8(t);
}

/// Whether `r` is the key that a passphrase gives with a salt, or a reason
/// that there is none.
pub open spec fn derives(
    r: Result<[u8; 32], KeyFailure>,
    passphrase: Seq<char>,
    salt: Seq<u8>,
) -> bool {
    match r {
        Ok(k) => encode_utf8(passphrase).len() <= u32::MAX && k@ == file_key(passphrase, salt),
        Err(f) => underived(f@, passphrase),
    }
}

/// Whether a failure is that of deriving a key from a passphrase.
pub open spec fn underived(f: KeyFailureView, passphrase: Seq<char>) -> bool {
    f.kind is Derive && f.cause is Some && derivation_refusal(f.cause->0, encode_utf8(passphrase))
}

/// The key that a passphrase gives with a salt of 16 bytes. The derivation
/// fails on a passphrase of 4 GiB or more and may fail on any other for want
/// of memory.
fn derive_key(passphrase: &str, salt: &[u8]) -> (r: Result<[u8; 32], KeyFailure>)
    requires
        salt@.len() == KEY_FILE_SALT_LEN,
    ensures
        derives(r, passphrase@, salt@),
{
    proof {
        lemma_salt_bytes(salt@);
    }
    match salt_string(salt) {
        None => Err(KeyFailure::bare(KeyError::Derive)),
        Some(text) => match argon2id(
            passphrase.as_bytes(),
            text.as_str().as_bytes(),
            KDF_MEMORY_KIB,
            KDF_PASSES,
            KDF_LANES,
        ) {
            Ok(k) => Ok(k),
            Err(why) => Err(KeyFailure::with(KeyError::Derive, why)),
        },
    }
}

/// An encrypted file.
pub open spec fn key_file(salt: Seq<u8>, nonce: Seq<u8>, ct: Seq<u8>) -> Seq<u8> {
    key_file_magic() + salt + nonce + ct
}

/// The salt of an encrypted file.
pub open spec fn file_salt(data: Seq<u8>) -> Seq<u8> {
    data.subrange(10, 26)
}

/// The nonce of an encrypted file.
pub open spec fn file_nonce(data: Seq<u8>) -> Seq<u8> {
    data.subrange(26, 50)
}

/// What an encrypted file holds under a key; one too long for the cipher
/// holds nothing.
pub open spec fn held_under(data: Seq<u8>, key: Seq<u8>) -> Option<Seq<u8>> {
    if data.len() > 50 + SEAL_LIMIT + 16 {
        None
    } else {
        opened(key, file_nonce(data), key_file_magic(), data.skip(50))
    }
}

/// What an encrypted file holds under a passphrase.
pub open spec fn held(data: Seq<u8>, passphrase: Seq<char>) -> Option<Seq<u8>> {
    held_under(data, file_key(passphrase, file_salt(data)))
}

proof fn lemma_key_file_parts(salt: Seq<u8>, nonce: Seq<u8>, ct: Seq<u8>)
    requires
        salt.len() == 16,
        nonce.len() == 24,
    ensures
        is_encrypted(key_file(salt, nonce, ct)),
        key_file(salt, nonce, ct).len() == 50 + ct.len(),
        file_salt(key_file(salt, nonce, ct)) == salt,
        file_nonce(key_file(salt, nonce, ct)) == nonce,
        key_file(salt, nonce, ct).skip(50) == ct,
{
    let f = key_file(salt, nonce, ct);
    assert(f.take(10) =~= key_file_magic());
    assert(file_salt(f) =~= salt);
    assert(file_nonce(f) =~= nonce);
    assert(f.skip(50) =~= ct);
}

fn nonce_array(v: &[u8]) -> (r: [u8; 24])
    requires
        v@.len() == 24,
    ensures
        r@ == v@,
{
    let mut out: [u8; 24] = [0u8; 24];
    let mut i: usize = 0;
    while i < 24
        invariant
            i <= 24,
            v@.len() == 24,
            out@.len() == 24,
            forall|j: int| 0 <= j < i ==> out@[j] == v@[j],
        decreases 24 - i,
    {
        out[i] = v[i];
        i = i + 1;
    }
    proof {
        assert(out@ =~= v@);
    }
    out
}

/// The encrypted file for a text, given key, salt and nonce.
pub fn seal_key_file(text: &str, key: &[u8; 32], salt: &[u8], nonce: &[u8]) -> (r: Result<
    Vec<u8>,
    KeyFailure,
>)
    requires
        salt@.len() == KEY_FILE_SALT_LEN,
        nonce@.len() == KEY_FILE_NONCE_LEN,
    ensures
        match r {
            Ok(out) => encode_utf8(text@).len() <= SEAL_LIMIT && out@ == key_file(
                salt@,
                nonce@,
                sealed(key@, nonce@, key_file_magic(), encode_utf8(text@)),
            ) && out@.len() == KEY_FILE_OVERHEAD + encode_utf8(text@).len() && is_encrypted(out@)
                && held_under(out@, key@) == Some(encode_utf8(text@)),
            Err(f) => f@ == KeyFailureView::bare(KeyError::Seal) && encode_utf8(text@).len()
                > SEAL_LIMIT,
        },
{
    if text.as_bytes().len() as u64 > SEAL_LIMIT {
        return Err(KeyFailure::bare(KeyError::Seal));
    }
    let m = magic();
    let n = nonce_array(nonce);
    match xchacha_seal(key, &n, m.as_slice(), text.as_bytes()) {
        None => Err(KeyFailure::bare(KeyError::Seal)),
        Some(ct) => {
            let mut out = magic();
            push_all(&mut out, salt);
            push_all(&mut out, nonce);
            push_all(&mut out, ct.as_slice());
            proof {
                lemma_key_file_parts(salt@, nonce@, ct@);
                assert(out@ =~= key_file(salt@, nonce@, ct@));
            }
            Ok(out)
        },
    }
}

fn zero_bytes(n: usize) -> (r: Vec<u8>)
    ensures
        r@.len() == n,
{
    let mut v: Vec<u8> = Vec::new();
    let mut i: usize = 0;
    while i < n
        invariant
            i <= n,
            v@.len() == i,
        decreases n - i,
    {
        v.push(0);
        i = i + 1;
    }
    v
}

/// Whether `r` is an encrypted file for a text under a passphrase, with some
/// salt and nonce, or a reason that there is none.
pub open spec fn encrypts(
    r: Result<Vec<u8>, KeyFailure>,
    text: Seq<char>,
    passphrase: Seq<char>,
) -> bool {
    match r {
        Ok(out) => is_encrypted(out@) && out@.len() == KEY_FILE_OVERHEAD + encode_utf8(text).len()
            && held(out@, passphrase) == Some(encode_utf8(text)) && out@ == key_file(
            file_salt(out@),
            file_nonce(out@),
            sealed(
                file_key(passphrase, file_salt(out@)),
                file_nonce(out@),
                key_file_magic(),
                encode_utf8(text),
            ),
        ),
        Err(f) => match f.kind {
            KeyError::SaltEntropy | KeyError::NonceEntropy => f.cause is Some,
            KeyError::Derive => underived(f@, passphrase),
            KeyError::Seal => f.cause is None && encode_utf8(text).len() > SEAL_LIMIT,
            _ => false,
        },
    }
}

/// Encrypts a text under a passphrase with a fresh salt and nonce.
///
/// What comes out opens to the text under the same passphrase. Salt and nonce
/// are left to chance; gathering them and deriving the key may fail.
pub fn encrypt_key_hex(text: &str, passphrase: &str) -> (r: Result<Vec<u8>, KeyFailure>)
    ensures
        encrypts(r, text@, passphrase@),
{
    let mut salt = zero_bytes(KEY_FILE_SALT_LEN);
    if let Err(why) = fill_random(&mut salt) {
        return Err(KeyFailure::with(KeyError::SaltEntropy, why));
    }
    let mut nonce = zero_bytes(KEY_FILE_NONCE_LEN);
    if let Err(why) = fill_random(&mut nonce) {
        return Err(KeyFailure::with(KeyError::NonceEntropy, why));
    }
    match derive_key(passphrase, salt.as_slice()) {
        Err(f) => Err(f),
        Ok(k) => {
            let mut key: [u8; 32] = k;
            let out = seal_key_file(text, &key, salt.as_slice(), nonce.as_slice());
            proof {
                lemma_key_file_parts(
                    salt@,
                    nonce@,
                    sealed(k@, nonce@, key_file_magic(), encode_utf8(text@)),
                );
            }
            wipe_key(&mut key);
            out
        },
    }
}

/// What an encrypted file gives under a key.
pub open spec fn open_result(plain: Option<Seq<u8>>) -> Result<Seq<char>, KeyFailureView> {
    match plain {
        None => Err(KeyFailureView::bare(KeyError::Open)),
        Some(p) => if valid_utf8(p) {
            Ok(decode_utf8(p))
        } else {
            Err(KeyFailureView::with(KeyError::NotUtf8, utf8_refusal(p)))
        },
    }
}

/// Whether `r` is what an encrypted file gives under a key.
pub open spec fn opens(r: Result<String, KeyFailure>, plain: Option<Seq<u8>>) -> bool {
    match r {
        Ok(s) => open_result(plain) == Ok::<Seq<char>, KeyFailureView>(s@),
        Err(f) => open_result(plain) == Err::<Seq<char>, KeyFailureView>(f@),
    }
}

/// The text of an encrypted file, given the key.
pub fn open_key_file(data: &[u8], key: &[u8; 32]) -> (r: Result<String, KeyFailure>)
    requires
        data@.len() >= 50,
    ensures
        opens(r, held_under(data@, key@)),
{
    let m = magic();
    let nonce = copy_range(data, 26, 50);
    let n = nonce_array(nonce.as_slice());
    let size: u64 = (data.len() - 50) as u64;
    if size > SEAL_LIMIT + 16 {
        return Err(KeyFailure::bare(KeyError::Open));
    }
    let ct = copy_range(data, 50, data.len());
    proof {
        assert(data@.subrange(50, data@.len() as int) =~= data@.skip(50));
    }
    match xchacha_open(key, &n, m.as_slice(), ct.as_slice()) {
        None => Err(KeyFailure::bare(KeyError::Open)),
        Some(plain) => match text_from_utf8(plain.as_slice()) {
            Ok(s) => Ok(s),
            Err(why) => Err(KeyFailure::with(KeyError::NotUtf8, why)),
        },
    }
}

/// Whether `r` is what a file gives under a passphrase: the text that it
/// holds, or the reason that it gives none. Deriving the key may fail
/// whatever an encrypted file holds.
pub open spec fn decrypts(
    r: Result<String, KeyFailure>,
    data: Seq<u8>,
    passphrase: Seq<char>,
) -> bool {
    if !is_encrypted(data) {
        r matches Err(f) && f@ == KeyFailureView::bare(KeyError::NotEncrypted)
    } else if data.len() < 50 {
        r matches Err(f) && f@ == KeyFailureView::bare(KeyError::Truncated)
    } else {
        (r matches Err(f) && underived(f@, passphrase)) || (encode_utf8(passphrase).len()
            <= u32::MAX && opens(r, held(data, passphrase)))
    }
}

/// Decrypts an encrypted file. What it holds under a passphrase is for the
/// cipher to say: that nothing opens under another passphrase, or after a
/// byte was changed, rests on its tag and is left unsaid here.
pub fn decrypt_key_hex(data: &[u8], passphrase: &str) -> (r: Result<String, KeyFailure>)
    ensures
        decrypts(r, data@, passphrase@),
{
    if !is_encrypted_key(data) {
        return Err(KeyFailure::bare(KeyError::NotEncrypted));
    }
    if data.len() < 50 {
        return Err(KeyFailure::bare(KeyError::Truncated));
    }
    let salt = copy_range(data, 10, 26);
    match derive_key(passphrase, salt.as_slice()) {
        Err(f) => Err(f),
        Ok(k) => {
            let mut key: [u8; 32] = k;
            let out = open_key_file(data, &key);
            wipe_key(&mut key);
            out
        },
    }
}

/// The value of a hexadecimal digit of either case.
pub open spec fn nibble(b: u8) -> Option<nat> {
    if 48 <= b <= 57 {
        Some((b - 48) as nat)
    } else if 97 <= b <= 102 {
        Some((b - 87) as nat)
    } else if 65 <= b <= 70 {
        Some((b - 55) as nat)
    } else {
        None
    }
}

/// The byte that two hexadecimal digits write.
pub open spec fn pair_value(hi: u8, lo: u8) -> Option<u8> {
    match (nibble(hi), nibble(lo)) {
        (Some(h), Some(l)) => Some((h * 16 + l) as u8),
        _ => None,
    }
}

/// Whether all 32 pairs of `b` write a byte.
pub open spec fn all_pairs(b: Seq<u8>) -> bool {
    forall|i: int| 0 <= i < 32 ==> #[trigger] pair_value(b[2 * i], b[2 * i + 1]) is Some
}

/// What is said of a pair that is no number.
pub open spec fn bad_digit() -> Seq<char> {
    "invalid digit found in string"@
}

/// The secret key that a text writes.
pub open spec fn secret_of(text: Seq<char>) -> Result<Seq<u8>, KeyFailureView> {
    let b = encode_utf8(trim_of(text));
    if b.len() != 64 {
        Err(KeyFailureView::bare(KeyError::BadLength(b.len() as usize)))
    } else if !all_pairs(b) {
        Err(KeyFailureView::with(KeyError::NonHex, bad_digit()))
    } else {
        Ok(Seq::new(32, |i: int| pair_value(b[2 * i], b[2 * i + 1])->0))
    }
}

fn read_nibble(b: u8) -> (r: Option<u8>)
    ensures
        match r {
            Some(v) => v < 16 && nibble(b) == Some(v as nat),
            None => nibble(b) is None,
        },
{
    if 48 <= b && b <= 57 {
        Some(b - 48)
    } else if 97 <= b && b <= 102 {
        Some(b - 87)
    } else if 65 <= b && b <= 70 {
        Some(b - 55)
    } else {
        None
    }
}

fn read_pair(hi: u8, lo: u8) -> (r: Option<u8>)
    ensures
        r == pair_value(hi, lo),
{
    match (read_nibble(hi), read_nibble(lo)) {
        (Some(h), Some(l)) => Some(h * 16 + l),
        _ => None,
    }
}

/// The secret key that 64 hexadecimal digits write, white space around them
/// aside.
pub fn secret_key_from_hex(text: &str) -> (r: Result<[u8; 32], KeyFailure>)
    ensures
        match r {
            Ok(k) => secret_of(text@) == Ok::<Seq<u8>, KeyFailureView>(k@),
            Err(f) => secret_of(text@) == Err::<Seq<u8>, KeyFailureView>(f@),
        },
{
    let t = trim(text);
    let b = t.as_str().as_bytes();
    if b.len() != 64 {
        return Err(KeyFailure::bare(KeyError::BadLength(b.len())));
    }
    let mut out: [u8; 32] = [0u8; 32];
    let mut i: usize = 0;
    while i < 32
        invariant
            i <= 32,
            b@ == encode_utf8(trim_of(text@)),
            b@.len() == 64,
            out@.len() == 32,
            forall|j: int| 0 <= j < i ==> #[trigger] pair_value(b@[2 * j], b@[2 * j + 1]) is Some,
            forall|j: int|
                0 <= j < i ==> #[trigger] out@[j] == pair_value(b@[2 * j], b@[2 * j + 1])->0,
        decreases 32 - i,
    {
        match read_pair(b[2 * i], b[2 * i + 1]) {
            None => {
                proof {
                    assert(pair_value(b@[2 * i], b@[2 * i + 1]) is None);
                }
                return Err(
                    KeyFailure::with(KeyError::NonHex, "invalid digit found in string".to_owned()),
                );
            },
            Some(v) => {
                out[i] = v;
            },
        }
        i = i + 1;
    }
    proof {
        assert(out@ =~= secret_of(text@)->Ok_0);
    }
    Ok(out)
}

proof fn lemma_hex_bytes(secret: Seq<u8>)
    ensures
        hex_of(secret).len() == 2 * secret.len(),
        forall|i: int|
            #![trigger hex_of(secret)[2 * i]]
            #![trigger secret[i]]
            0 <= i < secret.len() ==> hex_of(secret)[2 * i] == crate::text::hex_char(
                (secret[i] / 16) as nat,
            ) && hex_of(secret)[2 * i + 1] == crate::text::hex_char((secret[i] % 16) as nat),
        forall|i: int|
            0 <= i < hex_of(secret).len() ==> '0' <= #[trigger] hex_of(secret)[i] <= '9' || 'a'
                <= hex_of(secret)[i] <= 'f',
    decreases secret.len(),
{
    if secret.len() > 0 {
        let front = secret.drop_last();
        lemma_hex_bytes(front);
        let h = hex_of(secret);
        let n = 2 * front.len();
        assert forall|i: int| 0 <= i < secret.len() implies h[2 * i] == crate::text::hex_char(
            (#[trigger] secret[i] / 16) as nat,
        ) && h[2 * i + 1] == crate::text::hex_char((secret[i] % 16) as nat) by {
            if i < front.len() {
                assert(front[i] == secret[i]);
                assert(h[2 * i] == hex_of(front)[2 * i]);
                assert(h[2 * i + 1] == hex_of(front)[2 * i + 1]);
            } else {
                assert(h[2 * i] == crate::text::hex_byte(secret.last())[0]);
                assert(h[2 * i + 1] == crate::text::hex_byte(secret.last())[1]);
            }
        }
        assert forall|i: int| 0 <= i < h.len() implies '0' <= #[trigger] h[i] <= '9' || 'a' <= h[i]
            <= 'f' by {
            if i < n {
                assert(h[i] == hex_of(front)[i]);
            } else {
                assert(h[i] == crate::text::hex_byte(secret.last())[i - n]);
            }
        }
    }
}

/// The hexadecimal form of a secret key reads back as that key.
pub proof fn law_key_text_round_trip(secret: Seq<u8>)
    requires
        secret.len() == 32,
    ensures
        secret_of(hex_of(secret)) == Ok::<Seq<u8>, KeyFailureView>(secret),
{
    let h = hex_of(secret);
    lemma_hex_bytes(secret);
    assert(!is_space(h[0]));
    assert(!is_space(h[63]));
    assert(trim_of(h) == h);
    assert(vstd::utf8::is_ascii_chars(h)) by {
        assert forall|i: int| 0 <= i < h.len() implies 0 <= #[trigger] h[i] as nat && (h[i] as nat)
            < 128 by {}
    }
    vstd::utf8::is_ascii_chars_encode_utf8(h);
    let b = encode_utf8(h);
    assert forall|i: int| 0 <= i < 32 implies #[trigger] pair_value(b[2 * i], b[2 * i + 1]) == Some(
        secret[i],
    ) by {
        assert(b[2 * i] == h[2 * i] as u8);
        assert(b[2 * i + 1] == h[2 * i + 1] as u8);
        assert(h[2 * i] == crate::text::hex_char((secret[i] / 16) as nat));
    }
    assert(secret_of(h)->Ok_0 =~= secret);
}

/// A plain key file is never taken for an encrypted one.
pub proof fn law_plain_key_is_not_taken_for_encrypted(text: Seq<char>)
    requires
        secret_of(text) is Ok,
    ensures
        !is_encrypted(encode_utf8(text)),
{
    let b = encode_utf8(text);
    let t = trim_of(text);
    if is_encrypted(b) {
        assert(b[0] == b.take(10)[0]);
        assert(text.len() > 0);
        vstd::utf8::encode_utf8_first_scalar(text);
        lemma_first_char(text);
        assert(!is_space(text[0]));
        assert(trim_start_of(text) == text);
        assert(t.len() > 0) by {
            vstd::utf8::encode_utf8_decode_utf8(t);
            if t.len() == 0 {
                assert(encode_utf8(t).len() == 0);
            }
        }
        lemma_trim_end_first(text);
        assert(t[0] == text[0]);
        lemma_first_char_byte(t);
        let z: int = 0;
        assert(pair_value(encode_utf8(t)[2 * z], encode_utf8(t)[2 * z + 1]) is Some);
    }
}

proof fn lemma_trim_end_first(s: Seq<char>)
    requires
        trim_end_of(s).len() > 0,
    ensures
        trim_end_of(s)[0] == s[0],
    decreases s.len(),
{
    if s.len() > 0 && is_space(s.last()) {
        lemma_trim_end_first(s.drop_last());
    }
}

/// Text whose first byte is `l` begins with that letter.
proof fn lemma_first_char(text: Seq<char>)
    requires
        text.len() > 0,
        encode_utf8(text)[0] == 0x6c,
    ensures
        text[0] == 'l',
{
    vstd::utf8::encode_utf8_first_scalar(text);
    let b = encode_utf8(text);
    let c = text[0] as u32;
    assert(0x6cu8 & 0x7f == 0x6c) by (bit_vector);
    assert(vstd::utf8::is_leading_byte_width_1(b[0]));
    assert(vstd::utf8::decode_first_scalar(b) == c);
    assert(b[0] == 0x6cu8);
    assert(vstd::utf8::leading_bits_width_1(b[0]) == 0x6cu32);
    assert(c == 0x6cu32);
    assert(text[0] as u32 == 'l' as u32);
    vstd::utf8::char_u32_cast(text[0], 0x6cu32);
}

proof fn lemma_first_char_byte(text: Seq<char>)
    requires
        text.len() > 0,
        text[0] == 'l',
    ensures
        encode_utf8(text)[0] == 0x6c,
{
    let one = seq!['l'];
    assert(vstd::utf8::has_width_1_encoding('l' as u32));
    assert(vstd::utf8::encode_scalar('l' as u32).len() == 1);
    assert(encode_utf8(text)[0] == vstd::utf8::encode_scalar('l' as u32)[0]);
    assert(0x6cu32 & 0x7f == 0x6c) by (bit_vector);
}

/// What is to be done for an identity.
#[derive(Debug)]
pub enum IdentityPlan {
    /// There is no file: make a key and write it.
    Create,
    /// The file was read.
    Loaded(LoadedIdentity),
}

/// A file that was read.
#[derive(Debug)]
pub struct LoadedIdentity {
    /// What to write over a plain file now that there is a passphrase.
    pub rewrite: Option<Result<Vec<u8>, KeyFailure>>,
    /// The secret key.
    pub key: Result<[u8; 32], Error>,
}

/// The message where an encrypted file comes without a passphrase.
pub open spec fn passphrase_missing() -> Seq<char> {
    "identity file is passphrase-encrypted but no passphrase was provided (use --identity-passphrase or LINK_P2P_PASSPHRASE)"@
}

/// Whether `key` is what a text gives: its secret key, or the reason that it
/// has none.
pub open spec fn key_is(
    key: Result<[u8; 32], Error>,
    catalog: Map<Seq<char>, Seq<char>>,
    text: Seq<char>,
) -> bool {
    match (key, secret_of(text)) {
        (Ok(k), Ok(s)) => k@ == s,
        (Err(e), Err(why)) => e.wf() && e@ == why.chain(catalog),
        _ => false,
    }
}

/// Whether `key` says why an encrypted file did not open.
pub open spec fn key_fails(
    key: Result<[u8; 32], Error>,
    catalog: Map<Seq<char>, Seq<char>>,
    why: KeyFailureView,
) -> bool {
    match key {
        Ok(_) => false,
        Err(e) => e.wf() && e@ == seq![
            (looked_up(catalog, "decrypting identity file"@), None::<i32>),
        ] + why.chain(catalog),
    }
}

fn parse_key(catalog: &Catalog, text: &str) -> (r: Result<[u8; 32], Error>)
    ensures
        key_is(r, catalog@, text@),
{
    match secret_key_from_hex(text) {
        Ok(k) => Ok(k),
        Err(f) => Err(f.error(catalog)),
    }
}

/// Whether `key` is what an encrypted file gives under a passphrase: its
/// secret key, or the reason that it gives none.
pub open spec fn unlocks(
    key: Result<[u8; 32], Error>,
    catalog: Map<Seq<char>, Seq<char>>,
    data: Seq<u8>,
    passphrase: Seq<char>,
) -> bool {
    if data.len() < 50 {
        key_fails(key, catalog, KeyFailureView::bare(KeyError::Truncated))
    } else {
        key_is_underived(key, catalog, passphrase) || match open_result(held(data, passphrase)) {
            Ok(text) => key_is(key, catalog, text),
            Err(why) => key_fails(key, catalog, why),
        }
    }
}

/// Whether `key` says that no key could be derived from a passphrase.
pub open spec fn key_is_underived(
    key: Result<[u8; 32], Error>,
    catalog: Map<Seq<char>, Seq<char>>,
    passphrase: Seq<char>,
) -> bool {
    exists|why: KeyFailureView|
        underived(why, passphrase) && #[trigger] key_fails(key, catalog, why)
}

fn load_encrypted(catalog: &Catalog, data: &[u8], passphrase: &str) -> (r: Result<[u8; 32], Error>)
    requires
        is_encrypted(data@),
    ensures
        unlocks(r, catalog@, data@, passphrase@),
{
    match decrypt_key_hex(data, passphrase) {
        Err(f) => {
            let ghost why = f@;
            let e = f.error(catalog).context(lookup(catalog, "decrypting identity file"));
            let r: Result<[u8; 32], Error> = Err(e);
            proof {
                assert(key_fails(r, catalog@, why));
            }
            r
        },
        Ok(t) => {
            let mut text = t;
            let key = parse_key(catalog, text.as_str());
            wipe_text(&mut text);
            key
        },
    }
}

/// Whether `r` is what the content of an identity file, if there is one, and
/// a passphrase, if there is one, give.
pub open spec fn loads(
    r: Result<IdentityPlan, Error>,
    catalog: Map<Seq<char>, Seq<char>>,
    data: Option<Seq<u8>>,
    passphrase: Option<Seq<char>>,
) -> bool {
    if passphrase matches Some(p) && passphrase_refusal(catalog, p) is Some {
        r matches Err(e) && e.wf() && e@ == seq![
            (passphrase_refusal(catalog, passphrase->0)->0, Some(exit::USAGE)),
        ]
    } else {
        match (r, data) {
            (Ok(IdentityPlan::Create), None) => true,
            (Ok(IdentityPlan::Loaded(l)), Some(d)) => loads_file(l, catalog, d, passphrase),
            _ => false,
        }
    }
}

/// Whether `l` is what the content of an identity file gives.
pub open spec fn loads_file(
    l: LoadedIdentity,
    catalog: Map<Seq<char>, Seq<char>>,
    data: Seq<u8>,
    passphrase: Option<Seq<char>>,
) -> bool {
    if is_encrypted(data) {
        l.rewrite is None && match passphrase {
            None => l.key matches Err(e) && e.wf() && e@ == seq![
                (looked_up(catalog, passphrase_missing()), None::<i32>),
            ],
            Some(p) => unlocks(l.key, catalog, data, p),
        }
    } else if !valid_utf8(data) {
        &&& l.rewrite is None
        &&& l.key matches Err(e) && e.wf() && e@ == seq![
            (
                looked_up(catalog, "identity file is neither plaintext hex nor encrypted"@),
                None::<i32>,
            ),
            (utf8_refusal(data), None::<i32>),
        ]
    } else {
        key_is(l.key, catalog, decode_utf8(data)) && match (l.rewrite, passphrase) {
            (None, None) => true,
            (Some(out), Some(p)) => encrypts(out, trim_of(decode_utf8(data)), p),
            _ => false,
        }
    }
}

/// The bytes of a file that there may be.
pub open spec fn content(data: Option<Vec<u8>>) -> Option<Seq<u8>> {
    match data {
        Some(d) => Some(d@),
        None => None,
    }
}

/// The characters of a passphrase that there may be.
pub open spec fn secret_text(passphrase: Option<String>) -> Option<Seq<char>> {
    match passphrase {
        Some(p) => Some(p@),
        None => None,
    }
}

/// Loads the identity that `data`, the content of its file, holds; without a
/// file a new one is to be made.
///
/// A passphrase is checked before anything else. An encrypted file needs one.
/// A plain file is, with a passphrase, to be rewritten encrypted; its key is
/// the same.
pub fn load_or_create_secret_key(
    catalog: &Catalog,
    data: Option<Vec<u8>>,
    passphrase: Option<String>,
) -> (r: Result<IdentityPlan, Error>)
    ensures
        loads(r, catalog@, content(data), secret_text(passphrase)),
{
    if let Some(p) = &passphrase {
        match validate_passphrase(catalog, p.as_str()) {
            Ok(()) => {},
            Err(e) => {
                return Err(e);
            },
        }
    }
    match data {
        None => Ok(IdentityPlan::Create),
        Some(d) => {
            if is_encrypted_key(d.as_slice()) {
                let key = match &passphrase {
                    None => Err(
                        Error::msg(
                            lookup(
                                catalog,
                                "identity file is passphrase-encrypted but no passphrase was provided (use --identity-passphrase or LINK_P2P_PASSPHRASE)",
                            ),
                        ),
                    ),
                    Some(p) => load_encrypted(catalog, d.as_slice(), p.as_str()),
                };
                return Ok(IdentityPlan::Loaded(LoadedIdentity { rewrite: None, key }));
            }
            match text_from_utf8(d.as_slice()) {
                Err(why) => {
                    let e = Error::msg(why).context(
                        lookup(catalog, "identity file is neither plaintext hex nor encrypted"),
                    );
                    proof {
                        assert(e@ =~= seq![
                            (
                                looked_up(
                                    catalog@,
                                    "identity file is neither plaintext hex nor encrypted"@,
                                ),
                                None::<i32>,
                            ),
                            (utf8_refusal(d@), None::<i32>),
                        ]);
                    }
                    Ok(IdentityPlan::Loaded(LoadedIdentity { rewrite: None, key: Err(e) }))
                },
                Ok(t) => {
                    let mut text = t;
                    let rewrite = match &passphrase {
                        None => None,
                        Some(p) => {
                            let mut plain = trim(text.as_str());
                            let out = encrypt_key_hex(plain.as_str(), p.as_str());
                            wipe_text(&mut plain);
                            Some(out)
                        },
                    };
                    let key = parse_key(catalog, text.as_str());
                    wipe_text(&mut text);
                    Ok(IdentityPlan::Loaded(LoadedIdentity { rewrite, key }))
                },
            }
        },
    }
}

/// Whether `r` is a file for a new key: its hexadecimal form, encrypted where
/// there is a passphrase.
pub open spec fn writes_key(
    r: Result<Vec<u8>, KeyFailure>,
    secret: Seq<u8>,
    passphrase: Option<Seq<char>>,
) -> bool {
    match passphrase {
        None => r matches Ok(out) && out@ == encode_utf8(hex_of(secret)),
        Some(p) => encrypts(r, hex_of(secret), p) && !(r matches Err(f) && f.kind is Seal),
    }
}

/// The file for a new key.
pub fn new_identity_file(secret: &[u8; 32], passphrase: &Option<String>) -> (r: Result<
    Vec<u8>,
    KeyFailure,
>)
    ensures
        writes_key(r, secret@, secret_text(*passphrase)),
{
    let mut text = hex(secret.as_slice());
    proof {
        lemma_hex_utf8(secret@);
    }
    let out = match passphrase {
        None => {
            let plain = text.as_str().as_bytes();
            let len: usize = plain.len();
            let copy = copy_range(plain, 0, len);
            proof {
                assert(plain@.subrange(0, plain@.len() as int) =~= plain@);
            }
            Ok(copy)
        },
        Some(p) => encrypt_key_hex(text.as_str(), p.as_str()),
    };
    wipe_text(&mut text);
    out
}

proof fn lemma_hex_utf8(secret: Seq<u8>)
    ensures
        encode_utf8(hex_of(secret)).len() == 2 * secret.len(),
{
    let h = hex_of(secret);
    lemma_hex_bytes(secret);
    assert(vstd::utf8::is_ascii_chars(h)) by {
        assert forall|i: int| 0 <= i < h.len() implies 0 <= #[trigger] h[i] as nat && (h[i] as nat)
            < 128 by {}
    }
    vstd::utf8::is_ascii_chars_encode_utf8(h);
}

proof fn lemma_encrypted_opens(file: Seq<u8>, passphrase: Seq<char>, text: Seq<char>)
    requires
        held(file, passphrase) == Some(encode_utf8(text)),
    ensures
        open_result(held(file, passphrase)) == Ok::<Seq<char>, KeyFailureView>(text),
{
    vstd::utf8::encode_utf8_valid_utf8(text);
    vstd::utf8::encode_utf8_decode_utf8(text);
}

/// Decrypting what a text was encrypted to, under the same passphrase, gives
/// the text back, unless no key can be derived.
pub proof fn law_decrypt_undoes_encrypt(
    file: Result<Vec<u8>, KeyFailure>,
    back: Result<String, KeyFailure>,
    text: Seq<char>,
    passphrase: Seq<char>,
)
    requires
        encrypts(file, text, passphrase),
        file matches Ok(out) && decrypts(back, out@, passphrase),
    ensures
        match back {
            Ok(s) => s@ == text,
            Err(f) => underived(f@, passphrase),
        },
{
    lemma_encrypted_opens(file->Ok_0@, passphrase, text);
}

/// The file made for a new key gives that key on every later load, under the
/// passphrase that it was made with or without one, and is left as it is. The
/// one way to fail is that no key can be derived from a passphrase.
pub proof fn law_new_identity_loads_back(
    catalog: Map<Seq<char>, Seq<char>>,
    secret: Seq<u8>,
    passphrase: Option<Seq<char>>,
    file: Result<Vec<u8>, KeyFailure>,
    r: Result<IdentityPlan, Error>,
)
    requires
        secret.len() == 32,
        passphrase matches Some(p) ==> passphrase_refusal(catalog, p) is None,
        writes_key(file, secret, passphrase),
        file matches Ok(out) && loads(r, catalog, Some(out@), passphrase),
    ensures
        r matches Ok(IdentityPlan::Loaded(l)) && l.rewrite is None && ((l.key matches Ok(k) && k@
            == secret) || (passphrase matches Some(p) && key_is_underived(l.key, catalog, p))),
{
    let h = hex_of(secret);
    law_key_text_round_trip(secret);
    match passphrase {
        None => {
            vstd::utf8::encode_utf8_valid_utf8(h);
            vstd::utf8::encode_utf8_decode_utf8(h);
            law_plain_key_is_not_taken_for_encrypted(h);
        },
        Some(p) => {
            lemma_encrypted_opens(file->Ok_0@, p, h);
        },
    }
}

/// An encrypted file without a passphrase gives no key, and nothing is
/// written.
pub proof fn law_encrypted_file_needs_a_passphrase(
    catalog: Map<Seq<char>, Seq<char>>,
    file: Seq<u8>,
    r: Result<IdentityPlan, Error>,
)
    requires
        is_encrypted(file),
        loads(r, catalog, Some(file), None),
    ensures
        r matches Ok(IdentityPlan::Loaded(l)) && l.rewrite is None && l.key is Err,
{
}

/// A passphrase that is too short or too long is an error whatever the file
/// holds, and nothing is written.
pub proof fn law_bad_passphrase_is_refused(
    catalog: Map<Seq<char>, Seq<char>>,
    data: Option<Seq<u8>>,
    passphrase: Seq<char>,
    r: Result<IdentityPlan, Error>,
)
    requires
        passphrase_refusal(catalog, passphrase) is Some,
        loads(r, catalog, data, Some(passphrase)),
    ensures
        r is Err,
{
}

/// A plain file loaded with a passphrase gives its key and is to be rewritten
/// encrypted; loading what is then written gives the same key, unless no key
/// can be derived from the passphrase.
pub proof fn law_rewritten_file_keeps_the_key(
    catalog: Map<Seq<char>, Seq<char>>,
    text: Seq<char>,
    passphrase: Seq<char>,
    first: Result<IdentityPlan, Error>,
    file: Seq<u8>,
    second: Result<IdentityPlan, Error>,
)
    requires
        secret_of(text) is Ok,
        passphrase_refusal(catalog, passphrase) is None,
        loads(first, catalog, Some(encode_utf8(text)), Some(passphrase)),
        loads(second, catalog, Some(file), Some(passphrase)),
    ensures
        first matches Ok(IdentityPlan::Loaded(l)) && (l.key matches Ok(k) && k@ == secret_of(
            text,
        )->Ok_0) && l.rewrite is Some && ((l.rewrite->0 matches Ok(out) && out@ == file) ==> (
        second matches Ok(IdentityPlan::Loaded(m)) && m.rewrite is None && ((m.key matches Ok(k)
            && k@ == secret_of(text)->Ok_0) || key_is_underived(m.key, catalog, passphrase)))),
{
    vstd::utf8::encode_utf8_valid_utf8(text);
    vstd::utf8::encode_utf8_decode_utf8(text);
    law_plain_key_is_not_taken_for_encrypted(text);
    lemma_trim_again(text);
    let l = first->Ok_0->Loaded_0;
    if l.rewrite->0 is Ok && l.rewrite->0->Ok_0@ == file {
        lemma_encrypted_opens(file, passphrase, trim_of(text));
    }
}

proof fn lemma_trim_start_first(s: Seq<char>)
    ensures
        trim_start_of(s).len() > 0 ==> !is_space(trim_start_of(s)[0]),
    decreases s.len(),
{
    if s.len() > 0 && is_space(s.first()) {
        lemma_trim_start_first(s.drop_first());
    }
}

proof fn lemma_trim_end_last(s: Seq<char>)
    ensures
        trim_end_of(s).len() > 0 ==> !is_space(trim_end_of(s).last()),
    decreases s.len(),
{
    if s.len() > 0 && is_space(s.last()) {
        lemma_trim_end_last(s.drop_last());
    }
}

/// Whether a load gives a secret key.
pub open spec fn gives(r: Result<IdentityPlan, Error>, secret: Seq<u8>) -> bool {
    r matches Ok(IdentityPlan::Loaded(l)) && l.key matches Ok(k) && k@ == secret
}

/// Whether a load gives no key and leaves the file as it is.
pub open spec fn refuses(r: Result<IdentityPlan, Error>) -> bool {
    match r {
        Err(_) => true,
        Ok(IdentityPlan::Create) => false,
        Ok(IdentityPlan::Loaded(l)) => l.key is Err && l.rewrite is None,
    }
}

/// Whether a load leaves the file as it is.
pub open spec fn leaves_file(r: Result<IdentityPlan, Error>) -> bool {
    r matches Ok(IdentityPlan::Loaded(l)) ==> l.rewrite is None
}

/// Whether a load fails for want of a derived key.
pub open spec fn lacks_key(
    r: Result<IdentityPlan, Error>,
    catalog: Map<Seq<char>, Seq<char>>,
    passphrase: Seq<char>,
) -> bool {
    r matches Ok(IdentityPlan::Loaded(l)) && l.rewrite is None && key_is_underived(
        l.key,
        catalog,
        passphrase,
    )
}

/// The life of an identity file. `first` is the load that finds no file,
/// `file` what is then written for a new key, under a passphrase or without
/// one; `again` loads it with the same passphrase or none, `bare` without
/// one and `other` under any passphrase; `file_after` is what `other` has
/// written, and `last` loads that.
///
/// - Where there is no file, one is made. It is encrypted exactly where there
///   is a passphrase.
/// - Every later load with what it was made with gives the key and leaves the
///   file as it is. Only deriving a key from the passphrase can fail.
/// - An encrypted file without a passphrase is refused, and so it is under
///   one for which the cipher opens nothing.
/// - A plain file under a passphrase gives its key, and what is written in its
///   place is encrypted and gives the key under that passphrase.
/// - A passphrase that is too short or too long is refused, whatever the file
///   holds, and the file left as it is.
pub proof fn law_identity_file(
    catalog: Map<Seq<char>, Seq<char>>,
    secret: Seq<u8>,
    passphrase: Option<Seq<char>>,
    any: Seq<char>,
    first: Result<IdentityPlan, Error>,
    file: Result<Vec<u8>, KeyFailure>,
    again: Result<IdentityPlan, Error>,
    bare: Result<IdentityPlan, Error>,
    other: Result<IdentityPlan, Error>,
    file_after: Seq<u8>,
    last: Result<IdentityPlan, Error>,
)
    requires
        secret.len() == 32,
        passphrase matches Some(p) ==> passphrase_refusal(catalog, p) is None,
        loads(first, catalog, None, passphrase),
        writes_key(file, secret, passphrase),
        file is Ok,
        loads(again, catalog, Some(file->Ok_0@), passphrase),
        loads(bare, catalog, Some(file->Ok_0@), None),
        loads(other, catalog, Some(file->Ok_0@), Some(any)),
        loads(last, catalog, Some(file_after), Some(any)),
    ensures
        first == Ok::<IdentityPlan, Error>(IdentityPlan::Create),
        is_encrypted(file->Ok_0@) == (passphrase is Some),
        leaves_file(again),
        match passphrase {
            None => {
                &&& gives(again, secret)
                &&& gives(bare, secret) && leaves_file(bare)
                &&& passphrase_refusal(catalog, any) is None ==> gives(other, secret) && (
                other->Ok_0->Loaded_0.rewrite matches Some(written) && ((written matches Ok(out)
                    && out@ == file_after) ==> is_encrypted(file_after) && leaves_file(last) && (
                gives(last, secret) || lacks_key(last, catalog, any))))
            },
            Some(p) => {
                &&& gives(again, secret) || lacks_key(again, catalog, p)
                &&& refuses(bare)
                &&& leaves_file(other)
                &&& held(file->Ok_0@, any) is None ==> refuses(other)
                &&& any == p ==> gives(other, secret) || lacks_key(other, catalog, p)
            },
        },
        passphrase_refusal(catalog, any) is Some ==> other is Err,
{
    let f = file->Ok_0@;
    let h = hex_of(secret);
    law_key_text_round_trip(secret);
    law_new_identity_loads_back(catalog, secret, passphrase, file, again);
    match passphrase {
        None => {
            vstd::utf8::encode_utf8_valid_utf8(h);
            vstd::utf8::encode_utf8_decode_utf8(h);
            law_plain_key_is_not_taken_for_encrypted(h);
            if passphrase_refusal(catalog, any) is None {
                law_rewritten_file_keeps_the_key(catalog, h, any, other, file_after, last);
            }
        },
        Some(p) => {
            if any == p {
                law_new_identity_loads_back(catalog, secret, passphrase, file, other);
            }
        },
    }
}

/// Trimming trimmed text changes nothing.
proof fn lemma_trim_again(s: Seq<char>)
    ensures
        trim_of(trim_of(s)) == trim_of(s),
{
    let u = trim_start_of(s);
    lemma_trim_start_first(s);
    lemma_trim_end_last(u);
    if trim_end_of(u).len() > 0 {
        lemma_trim_end_first(u);
        assert(u.len() > 0) by {
            if u.len() == 0 {
                assert(trim_end_of(u).len() == 0);
            }
        }
    }
}

/// A passphrase is accepted exactly where it has eight characters or more and
/// takes 1024 bytes or fewer.
pub proof fn law_passphrase_bounds(catalog: Catalog, passphrase: &str, r: Result<(), Error>)
    requires
        call_ensures(validate_passphrase, (&catalog, passphrase), r),
    ensures
        r is Ok <==> passphrase@.len() > 7 && encode_utf8(passphrase@).len() < 1025,
{
}

/// Whether a byte is a hexadecimal digit of either case.
pub open spec fn is_hex_digit(b: u8) -> bool {
    (0x30 <= b && b < 0x3a) || (0x41 <= b && b < 0x47) || (0x61 <= b && b < 0x67)
}

/// Whether a byte is the digit of a value, in either case.
pub open spec fn writes_digit(b: u8, value: int) -> bool {
    b as int == "0123456789abcdef"@[value] as u32 || b as int == "0123456789ABCDEF"@[value] as u32
}

/// A key is written by exactly 64 hexadecimal digits, of either case, with
/// white space around them or without: two for each byte, the high half first.
pub proof fn law_key_is_sixty_four_digits(text: &str, i: int, r: Result<[u8; 32], KeyFailure>)
    requires
        call_ensures(secret_key_from_hex, (text,), r),
    ensures
        ({
            let b = encode_utf8(trim_of(text@));
            &&& r is Ok <==> b.len() == 64 && forall|j: int|
                0 <= j < 64 ==> is_hex_digit(#[trigger] b[j])
            &&& r matches Ok(k) ==> (0 <= i < 32 ==> writes_digit(b[2 * i], k@[i] as int / 16)
                && writes_digit(b[2 * i + 1], k@[i] as int % 16))
        }),
{
    reveal_strlit("0123456789abcdef");
    reveal_strlit("0123456789ABCDEF");
    let b = encode_utf8(trim_of(text@));
    if let Ok(k) = r {
        assert forall|j: int| 0 <= j < 64 implies is_hex_digit(#[trigger] b[j]) by {
            let h = j / 2;
            assert(pair_value(b[2 * h], b[2 * h + 1]) is Some);
            assert(j == 2 * h || j == 2 * h + 1);
        }
        if 0 <= i < 32 {
            assert(pair_value(b[2 * i], b[2 * i + 1]) is Some);
            assert(k@[i] == pair_value(b[2 * i], b[2 * i + 1])->0);
        }
    } else if b.len() == 64 {
        let h = choose|h: int|
            0 <= h < 32 && #[trigger] pair_value(b[2 * h], b[2 * h + 1]) is None;
        assert(!is_hex_digit(b[2 * h]) || !is_hex_digit(b[2 * h + 1]));
    }
}

/// A file is encrypted exactly where it begins with `linkp2p-k1`.
pub proof fn law_encrypted_files_begin_with_the_magic(data: &[u8], r: bool)
    requires
        call_ensures(is_encrypted_key, (data,), r),
    ensures
        r <==> data@.len() >= 10 && forall|i: int|
            0 <= i < 10 ==> (#[trigger] data@[i]) as u32 == "linkp2p-k1"@[i] as u32,
{
    reveal_strlit("linkp2p-k1");
    let m = key_file_magic();
    let name = "linkp2p-k1"@;
    assert(m[0] == name[0] as u32 && m[1] == name[1] as u32 && m[2] == name[2] as u32 && m[3]
        == name[3] as u32 && m[4] == name[4] as u32 && m[5] == name[5] as u32 && m[6]
        == name[6] as u32 && m[7] == name[7] as u32 && m[8] == name[8] as u32 && m[9]
        == name[9] as u32);
    if r {
        assert forall|i: int| 0 <= i < 10 implies (#[trigger] data@[i]) as u32 == name[i] as u32 by {
            assert(data@.take(10)[i] == m[i]);
        }
    }
    if data@.len() >= 10 && forall|i: int|
        0 <= i < 10 ==> (#[trigger] data@[i]) as u32 == name[i] as u32 {
        assert forall|i: int| 0 <= i < 10 implies data@.take(10)[i] == m[i] by {
            assert(data@[i] as u32 == name[i] as u32);
        }
        assert(data@.take(10) =~= m);
    }
}

/// An encrypted file is the magic, the salt, the nonce and what the cipher
/// made of the text, 66 bytes longer than it, and opens to the text under the
/// key that it was made with.
pub proof fn law_encrypted_file_layout(
    text: &str,
    key: [u8; 32],
    salt: &[u8],
    nonce: &[u8],
    out: Vec<u8>,
    data: &[u8],
    back: Result<String, KeyFailure>,
)
    requires
        salt@.len() == 16,
        nonce@.len() == 24,
        call_ensures(
            seal_key_file,
            (text, &key, salt, nonce),
            Ok::<Vec<u8>, KeyFailure>(out),
        ),
        data@ == out@,
        call_ensures(open_key_file, (data, &key), back),
    ensures
        out@.len() == 66 + encode_utf8(text@).len(),
        out@.subrange(0, 10) == key_file_magic(),
        out@.subrange(10, 26) == salt@,
        out@.subrange(26, 50) == nonce@,
        back is Ok && back->Ok_0@ == text@,
{
    vstd::utf8::encode_utf8_valid_utf8(text@);
    vstd::utf8::encode_utf8_decode_utf8(text@);
    assert(out@.subrange(0, 10) =~= key_file_magic());
    assert(out@.subrange(10, 26) =~= salt@);
    assert(out@.subrange(26, 50) =~= nonce@);
}

/// An identity that is named is used. Without one it is the configured one,
/// unless only the old place has one: that is moved, and stays in use where it
/// cannot be, so that the identity remains the same.
pub proof fn law_identity_is_kept(
    explicit: bool,
    configured: bool,
    legacy: bool,
    moved: bool,
    choice: IdentityChoice,
    after: IdentityChoice,
)
    requires
        call_ensures(resolve_identity_path, (explicit, configured, legacy), choice),
        call_ensures(after_migration, (moved,), after),
    ensures
        choice == IdentityChoice::Explicit <==> explicit,
        choice == IdentityChoice::MigrateLegacy <==> !explicit && !configured && legacy,
        choice != IdentityChoice::Legacy,
        after == IdentityChoice::Configured <==> moved,
        after == IdentityChoice::Legacy <==> !moved,
{
}

} // verus!
