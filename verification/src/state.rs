//! What is kept of a user between sessions: the Matrix session, sealed with the user's password.

use vstd::prelude::*;
use vstd::string::*;
use vstd::utf8::*;

use crate::text::{cat2, same};

verus! {

/// data we want to keep around
#[derive(Debug)]
pub struct Session {
    pub homeserver: String,
    pub matrix_session: SerializedMatrixSession,
}

/// What a session with a Matrix server consists of.
#[derive(Debug)]
pub struct SerializedMatrixSession {
    /// The access token used for this session.
    pub access_token: String,
    /// The token used for refreshing the access token, if any.
    pub refresh_token: Option<String>,
    /// The user the access token was issued for.
    pub user_id: String,
    /// The ID of the client device.
    pub device_id: String,
}

/// data required for decryption
#[derive(Debug)]
pub struct Blob {
    pub version: String,
    pub ciphertext: Vec<u8>,
    pub salt: Vec<u8>,
    pub nonce: Vec<u8>,
}

/// What a [`Blob`] holds.
pub struct BlobView {
    pub version: Seq<char>,
    pub ciphertext: Seq<u8>,
    pub salt: Seq<u8>,
    pub nonce: Seq<u8>,
}

impl View for Blob {
    type V = BlobView;

    open spec fn view(&self) -> BlobView {
        BlobView {
            version: self.version@,
            ciphertext: self.ciphertext@,
            salt: self.salt@,
            nonce: self.nonce@,
        }
    }
}

/// Why a user cannot be let in or kept.
#[derive(Debug)]
pub enum StateError {
    /// The blob is of a version that is not known.
    Version,
    /// The password could not be hashed.
    Hash,
    /// The blob could not be opened.
    Decrypt,
    /// The session could not be sealed.
    Encrypt,
    /// No random numbers could be had.
    Random,
    /// There is no such user.
    UnknownUser(String),
}

/// What a [`StateError`] holds.
pub enum StateErrorView {
    Version,
    Hash,
    Decrypt,
    Encrypt,
    Random,
    UnknownUser(Seq<char>),
}

impl View for StateError {
    type V = StateErrorView;

    open spec fn view(&self) -> StateErrorView {
        match *self {
            StateError::Version => StateErrorView::Version,
            StateError::Hash => StateErrorView::Hash,
            StateError::Decrypt => StateErrorView::Decrypt,
            StateError::Encrypt => StateErrorView::Encrypt,
            StateError::Random => StateErrorView::Random,
            StateError::UnknownUser(nick) => StateErrorView::UnknownUser(nick@),
        }
    }
}

impl StateErrorView {
    /// The error in words.
    pub open spec fn in_words(self) -> Seq<char> {
        match self {
            StateErrorView::Version => "This version only supports argon2+chacha20poly1305"@,
            StateErrorView::Hash => "Could not hash password"@,
            StateErrorView::Decrypt => "Could not decrypt blob: bad password?"@,
            StateErrorView::Encrypt => "Could not encrypt blob"@,
            StateErrorView::Random => "Could not get random numbers"@,
            StateErrorView::UnknownUser(nick) => "unknown user "@ + nick,
        }
    }
}

impl StateError {
    /// The error in words.
    pub fn text(&self) -> (r: String)
        ensures
            r@ == self@.in_words(),
    {
        match self {
            StateError::Version => "This version only supports argon2+chacha20poly1305".to_owned(),
            StateError::Hash => "Could not hash password".to_owned(),
            StateError::Decrypt => "Could not decrypt blob: bad password?".to_owned(),
            StateError::Encrypt => "Could not encrypt blob".to_owned(),
            StateError::Random => "Could not get random numbers".to_owned(),
            StateError::UnknownUser(nick) => cat2("unknown user ", nick),
        }
    }
}

/// The key that `argon2::Argon2::hash_password_into`, with its default parameters, makes of a
/// password and a salt.
pub uninterp spec fn argon2_key(password: Seq<u8>, salt: Seq<u8>) -> Seq<u8>;

/// Whether a password and a salt have lengths from which a key can be made.
pub open spec fn can_hash(password: Seq<u8>, salt: Seq<u8>) -> bool {
    password.len() <= 0xffff_ffff && 8 <= salt.len() <= 0xffff_ffff
}

/// `argon2::Argon2::hash_password_into`, with its default parameters, makes a key of 32 bytes
/// from a password and a salt. It fails where the password is too long, or the salt too short
/// or too long.
#[verifier::external_body]
fn hash_password(password: &[u8], salt: &Vec<u8>, key_len: usize) -> (r: Option<Vec<u8>>)
    requires
        key_len == 32,
    ensures
        (match r {
            Some(key) => {
                &&& can_hash(password@, salt@)
                &&& key@ == argon2_key(password@, salt@)
                &&& key@.len() == key_len
            },
            None => !can_hash(password@, salt@),
        }),
{
    let mut key = vec![0u8; key_len];
    argon2::Argon2::default().hash_password_into(password, salt, &mut key).ok()?;
    Some(key)
}

/// What `chacha20poly1305::XChaCha20Poly1305::encrypt` makes of a plaintext, with a key and a
/// nonce.
pub uninterp spec fn xchacha_sealed(key: Seq<u8>, nonce: Seq<u8>, plaintext: Seq<u8>) -> Seq<u8>;

/// What `chacha20poly1305::XChaCha20Poly1305::decrypt` makes of a ciphertext, with a key and a
/// nonce; nothing where the ciphertext is none that was made with these.
pub uninterp spec fn xchacha_opened(key: Seq<u8>, nonce: Seq<u8>, ciphertext: Seq<u8>) -> Option<Seq<u8>>;

/// Whether there is a key stream of this many bytes: one of all but one of the blocks that can
/// be counted, of 64 bytes each.
pub open spec fn streamable(len: nat) -> bool {
    len <= 64 * 0xffff_fffe
}

/// Whether a length is refused before a key stream is asked for.
pub open spec fn refused(len: nat) -> bool {
    len / 64 >= 0xffff_ffff
}

/// `chacha20poly1305::XChaCha20Poly1305::encrypt` seals a plaintext with a key of 32 and a nonce
/// of 24 bytes; it panics on other lengths, and where the key stream does not last for a
/// plaintext that it does not refuse. What it gives opens again, with the same key and nonce,
/// to the plaintext.
#[verifier::external_body]
fn encrypt(key: &Vec<u8>, nonce: &Vec<u8>, plaintext: &Vec<u8>) -> (r: Option<Vec<u8>>)
    requires
        key@.len() == 32,
        nonce@.len() == 24,
        streamable(plaintext@.len()) || refused(plaintext@.len()),
    ensures
        (match r {
            Some(sealed) => {
                &&& !refused(plaintext@.len())
                &&& sealed@ == xchacha_sealed(key@, nonce@, plaintext@)
                &&& sealed@.len() == plaintext@.len() + 16
                &&& xchacha_opened(key@, nonce@, sealed@) == Some(plaintext@)
            },
            None => refused(plaintext@.len()),
        }),
{
    let cipher: chacha20poly1305::XChaCha20Poly1305 = chacha20poly1305::KeyInit::new(key.as_slice().into());
    chacha20poly1305::aead::Aead::encrypt(&cipher, nonce.as_slice().into(), plaintext.as_slice()).ok()
}

/// Whether a ciphertext, which ends in a tag of 16 bytes, can be handed to the cipher.
pub open spec fn openable(ciphertext: Seq<u8>) -> bool {
    let len = (ciphertext.len() - 16) as nat;
    ciphertext.len() < 16 || streamable(len) || refused(len)
}

/// `chacha20poly1305::XChaCha20Poly1305::decrypt` opens a ciphertext with a key of 32 and a
/// nonce of 24 bytes; it panics on other lengths, and where the key stream does not last for a
/// ciphertext that it does not refuse. A ciphertext that is shorter than its tag never opens.
#[verifier::external_body]
fn decrypt(key: &Vec<u8>, nonce: &Vec<u8>, ciphertext: &Vec<u8>) -> (r: Option<Vec<u8>>)
    requires
        key@.len() == 32,
        nonce@.len() == 24,
        openable(ciphertext@),
    ensures
        (match r {
            Some(plaintext) => {
                &&& xchacha_opened(key@, nonce@, ciphertext@) == Some(plaintext@)
                &&& ciphertext@.len() == plaintext@.len() + 16
            },
            None => xchacha_opened(key@, nonce@, ciphertext@) is None,
        }),
{
    let cipher: chacha20poly1305::XChaCha20Poly1305 = chacha20poly1305::KeyInit::new(key.as_slice().into());
    chacha20poly1305::aead::Aead::decrypt(&cipher, nonce.as_slice().into(), ciphertext.as_slice()).ok()
}

/// `argon2::password_hash::rand_core::OsRng` fills bytes with random numbers from the operating
/// system, or fails to.
#[verifier::external_body]
fn random_bytes(len: usize) -> (r: Option<Vec<u8>>)
    ensures
        r matches Some(bytes) ==> bytes@.len() == len,
{
    let mut bytes = vec![0u8; len];
    let mut source = argon2::password_hash::rand_core::OsRng;
    argon2::password_hash::rand_core::RngCore::try_fill_bytes(&mut source, &mut bytes).ok()?;
    Some(bytes)
}

/// The version of the blobs that are written and read.
pub open spec fn blob_version() -> Seq<char> {
    "argon2+chacha20poly1305"@
}

/// What a blob opens to with a password.
pub open spec fn opened(blob: BlobView, pass: Seq<char>) -> Result<Seq<u8>, StateErrorView> {
    let password = encode_utf8(pass);
    if blob.version != blob_version() {
        Err(StateErrorView::Version)
    } else if !can_hash(password, blob.salt) {
        Err(StateErrorView::Hash)
    } else {
        match xchacha_opened(argon2_key(password, blob.salt), blob.nonce, blob.ciphertext) {
            Some(plaintext) => Ok(plaintext),
            None => Err(StateErrorView::Decrypt),
        }
    }
}

/// Whether a blob that gets as far as the cipher can be handed to it.
pub open spec fn sound(blob: BlobView, pass: Seq<char>) -> bool {
    blob.version == blob_version() && can_hash(encode_utf8(pass), blob.salt) ==> blob.nonce.len() == 24
        && openable(blob.ciphertext)
}

/// Whether a length is one that the cipher takes or refuses.
fn fits_cipher(len: usize) -> (r: bool)
    ensures
        r == (streamable(len as nat) || refused(len as nat)),
{
    let n: u64 = len as u64;
    n <= 64 * 0xffff_fffe || n / 64 >= 0xffff_ffff
}

/// Whether a session can be handed to the cipher.
pub fn can_seal(plaintext: &Vec<u8>) -> (r: bool)
    ensures
        r == (streamable(plaintext@.len()) || refused(plaintext@.len())),
{
    fits_cipher(plaintext.len())
}

/// Whether a blob that gets as far as the cipher can be handed to it.
pub fn is_sound(blob: &Blob, pass: &str) -> (r: bool)
    ensures
        r == sound(blob@, pass@),
{
    let password = pass.as_bytes();
    let hashes = password.len() as u64 <= 0xffff_ffff && 8 <= blob.salt.len() && blob.salt.len() as u64
        <= 0xffff_ffff;
    let len: usize = blob.ciphertext.len();
    let fits = blob.nonce.len() == 24 && (len < 16 || fits_cipher(len - 16));
    !(same(&blob.version, "argon2+chacha20poly1305") && hashes) || fits
}

/// What a result of opening a blob holds.
pub open spec fn opened_view(r: Result<Vec<u8>, StateError>) -> Result<Seq<u8>, StateErrorView> {
    match r {
        Ok(plaintext) => Ok(plaintext@),
        Err(e) => Err(e@),
    }
}

/// Tries to open a stored session with a password.
pub fn check_pass(blob: &Blob, pass: &str) -> (r: Result<Vec<u8>, StateError>)
    requires
        sound(blob@, pass@),
    ensures
        opened_view(r) == opened(blob@, pass@),
{
    if !same(&blob.version, "argon2+chacha20poly1305") {
        return Err(StateError::Version);
    }
    match hash_password(pass.as_bytes(), &blob.salt, 32) {
        None => Err(StateError::Hash),
        Some(key) => match decrypt(&key, &blob.nonce, &blob.ciphertext) {
            Some(plaintext) => Ok(plaintext),
            None => Err(StateError::Decrypt),
        },
    }
}

/// What sealing a session with a password, a salt and a nonce gives.
pub open spec fn sealed(
    pass: Seq<char>,
    salt: Seq<u8>,
    nonce: Seq<u8>,
    plaintext: Seq<u8>,
) -> Result<BlobView, StateErrorView> {
    let password = encode_utf8(pass);
    if !can_hash(password, salt) {
        Err(StateErrorView::Hash)
    } else if refused(plaintext.len()) {
        Err(StateErrorView::Encrypt)
    } else {
        Ok(
            BlobView {
                version: blob_version(),
                ciphertext: xchacha_sealed(argon2_key(password, salt), nonce, plaintext),
                salt,
                nonce,
            },
        )
    }
}

/// Seals a session with a password, a salt and a nonce. The blob opens with that password to
/// the session.
pub fn seal_with(pass: &str, salt: Vec<u8>, nonce: Vec<u8>, plaintext: &Vec<u8>) -> (r: Result<
    Blob,
    StateError,
>)
    requires
        nonce@.len() == 24,
        streamable(plaintext@.len()) || refused(plaintext@.len()),
    ensures
        (match r {
            Ok(blob) => {
                &&& sealed(pass@, salt@, nonce@, plaintext@) == Ok::<BlobView, StateErrorView>(blob@)
                &&& sound(blob@, pass@)
                &&& opened(blob@, pass@) == Ok::<Seq<u8>, StateErrorView>(plaintext@)
            },
            Err(e) => sealed(pass@, salt@, nonce@, plaintext@) == Err::<BlobView, StateErrorView>(e@),
        }),
{
    match hash_password(pass.as_bytes(), &salt, 32) {
        None => Err(StateError::Hash),
        Some(key) => match encrypt(&key, &nonce, plaintext) {
            Some(ciphertext) => Ok(
                Blob { version: "argon2+chacha20poly1305".to_owned(), ciphertext, salt, nonce },
            ),
            None => Err(StateError::Encrypt),
        },
    }
}

/// Seals the session of a new user with the user's password, under a salt and a nonce that
/// nobody knows beforehand. Whoever logs in with that password later gets the session back,
/// whether or not new users are let in.
pub fn create_user(pass: &str, plaintext: &Vec<u8>) -> (r: Result<Blob, StateError>)
    requires
        streamable(plaintext@.len()) || refused(plaintext@.len()),
    ensures
        (match r {
            Ok(blob) => {
                &&& blob@.salt.len() == 32
                &&& blob@.nonce.len() == 24
                &&& sealed(pass@, blob@.salt, blob@.nonce, plaintext@) == Ok::<BlobView, StateErrorView>(
                    blob@,
                )
                &&& sound(blob@, pass@)
                &&& opened(blob@, pass@) == Ok::<Seq<u8>, StateErrorView>(plaintext@)
                &&& forall|nick: Seq<char>, allow_register: bool| #[trigger]
                    let_in(nick, pass@, Some(blob@), allow_register) == Ok::<
                        Option<Seq<u8>>,
                        StateErrorView,
                    >(Some(plaintext@))
            },
            Err(e) => {
                ||| e@ == StateErrorView::Random
                ||| e@ == StateErrorView::Hash && encode_utf8(pass@).len() > 0xffff_ffff
                ||| e@ == StateErrorView::Encrypt && refused(plaintext@.len())
            },
        }),
{
    match (random_bytes(32), random_bytes(24)) {
        (Some(salt), Some(nonce)) => seal_with(pass, salt, nonce, plaintext),
        _ => Err(StateError::Random),
    }
}

/// Whether a user is let in: one who is stored only with the right password; one who is not
/// only where new users are let in.
pub open spec fn let_in(
    nick: Seq<char>,
    pass: Seq<char>,
    stored: Option<BlobView>,
    allow_register: bool,
) -> Result<Option<Seq<u8>>, StateErrorView> {
    match stored {
        Some(blob) => match opened(blob, pass) {
            Ok(plaintext) => Ok(Some(plaintext)),
            Err(e) => Err(e),
        },
        None => if allow_register {
            Ok(None)
        } else {
            Err(StateErrorView::UnknownUser(nick))
        },
    }
}

/// Initial "log in": if user exists validate its password,
/// otherwise just let it through iff we allow new users
pub fn login(nick: &str, pass: &str, stored: Option<&Blob>, allow_register: bool) -> (r: Result<
    Option<Vec<u8>>,
    StateError,
>)
    requires
        stored matches Some(blob) ==> sound(blob@, pass@),
    ensures
        (match r {
            Ok(Some(plaintext)) => Ok::<Option<Seq<u8>>, StateErrorView>(Some(plaintext@)),
            Ok(None) => Ok(None),
            Err(e) => Err(e@),
        }) == let_in(
            nick@,
            pass@,
            match stored {
                Some(blob) => Some(blob@),
                None => None,
            },
            allow_register,
        ),
{
    match stored {
        Some(blob) => match check_pass(blob, pass) {
            Ok(plaintext) => Ok(Some(plaintext)),
            Err(e) => Err(e),
        },
        None => if allow_register {
            Ok(None)
        } else {
            Err(StateError::UnknownUser(nick.to_owned()))
        },
    }
}

/// Nobody is let in as a user who is stored without opening what is stored, whether or not new
/// users are let in.
pub proof fn stored_users_need_their_password(
    nick: Seq<char>,
    pass: Seq<char>,
    blob: BlobView,
    allow_register: bool,
)
    ensures
        let_in(nick, pass, Some(blob), allow_register) is Ok <==> opened(blob, pass) is Ok,
        let_in(nick, pass, Some(blob), allow_register) != Ok::<Option<Seq<u8>>, StateErrorView>(None),
{
}

/// A user who is not stored is let in without a session where new users are, and otherwise
/// refused by name; one who is stored gets what is stored, or is refused as it could not be
/// opened, whether or not new users are let in.
pub proof fn users_are_let_in_or_refused(
    nick: Seq<char>,
    pass: Seq<char>,
    blob: BlobView,
    allow_register: bool,
)
    ensures
        let_in(nick, pass, None, true) == Ok::<Option<Seq<u8>>, StateErrorView>(None),
        let_in(nick, pass, None, false) == Err::<Option<Seq<u8>>, StateErrorView>(
            StateErrorView::UnknownUser(nick),
        ),
        let_in(nick, pass, Some(blob), allow_register) == match opened(blob, pass) {
            Ok(plaintext) => Ok::<Option<Seq<u8>>, StateErrorView>(Some(plaintext)),
            Err(e) => Err(e),
        },
{
}

/// A blob opens to what the cipher gives with the key that the password and the salt make, where
/// there is such a key. A blob of another version, lengths from which no key can be made, and a
/// cipher that gives nothing are told apart.
pub proof fn blobs_open_by_their_password(blob: BlobView, pass: Seq<char>)
    ensures
        ({
            let password = encode_utf8(pass);
            let known = blob.version == "argon2+chacha20poly1305"@;
            let hashes = password.len() < 0x1_0000_0000 && 8 <= blob.salt.len() < 0x1_0000_0000;
            let plain = xchacha_opened(
                argon2_key(password, blob.salt),
                blob.nonce,
                blob.ciphertext,
            );
            match opened(blob, pass) {
                Ok(p) => known && hashes && plain == Some(p),
                Err(StateErrorView::Version) => !known,
                Err(StateErrorView::Hash) => known && !hashes,
                Err(StateErrorView::Decrypt) => known && hashes && plain is None,
                Err(_) => false,
            }
        }),
{
}

/// A sealed blob is one of the version that is read, keeps the salt and the nonce that it was
/// made with, and holds what the cipher makes of the session under the key of the password.
/// Sealing fails only for the lengths for which there is no key or no cipher text.
pub proof fn blobs_are_sealed_for_opening(
    pass: Seq<char>,
    salt: Seq<u8>,
    nonce: Seq<u8>,
    plaintext: Seq<u8>,
)
    ensures
        ({
            let password = encode_utf8(pass);
            let hashes = password.len() < 0x1_0000_0000 && 8 <= salt.len() < 0x1_0000_0000;
            let short = plaintext.len() < 64 * 0xffff_ffff;
            match sealed(pass, salt, nonce, plaintext) {
                Ok(blob) => {
                    &&& hashes && short
                    &&& blob.version == "argon2+chacha20poly1305"@
                    &&& blob.salt == salt && blob.nonce == nonce
                    &&& blob.ciphertext == xchacha_sealed(
                        argon2_key(password, salt),
                        nonce,
                        plaintext,
                    )
                },
                Err(StateErrorView::Hash) => !hashes,
                Err(StateErrorView::Encrypt) => hashes && !short,
                Err(_) => false,
            }
        }),
{
}

/// What users are told of errors: each in its own words, and an unknown user by its name.
pub proof fn errors_have_their_words(nick: Seq<char>)
    ensures
        StateErrorView::Version.in_words() == "This version only supports argon2+chacha20poly1305"@,
        StateErrorView::Hash.in_words() == "Could not hash password"@,
        StateErrorView::Decrypt.in_words() == "Could not decrypt blob: bad password?"@,
        StateErrorView::Encrypt.in_words() == "Could not encrypt blob"@,
        StateErrorView::Random.in_words() == "Could not get random numbers"@,
        StateErrorView::UnknownUser(nick).in_words() == "unknown user "@ + nick,
{
}

/// The cipher takes what fits in all but one of the 2 to the power of 32 blocks of 64 bytes that
/// it can count, and refuses what fills them all; only the lengths between are neither.
pub proof fn most_lengths_fit_the_cipher(len: nat)
    ensures
        streamable(len) <==> (len + 63) / 64 < 0x1_0000_0000 - 1,
        refused(len) <==> (len + 64) / 64 >= 0x1_0000_0000,
        !streamable(len) && !refused(len) <==> 64 * 0xffff_fffe < len < 64 * 0xffff_ffff,
{
}

/// A blob that does not get as far as the cipher can be opened whatever it holds. One that does
/// needs a nonce of 24 bytes, and, behind a tag of 16, a length that the cipher takes or refuses.
pub proof fn blobs_get_to_the_cipher_whole(blob: BlobView, pass: Seq<char>)
    ensures
        opened(blob, pass) == Err::<Seq<u8>, StateErrorView>(StateErrorView::Version) ==> sound(
            blob,
            pass,
        ),
        opened(blob, pass) == Err::<Seq<u8>, StateErrorView>(StateErrorView::Hash) ==> sound(
            blob,
            pass,
        ),
        opened(blob, pass) is Ok || opened(blob, pass) == Err::<Seq<u8>, StateErrorView>(
            StateErrorView::Decrypt,
        ) ==> (sound(blob, pass) <==> blob.nonce.len() == 24 && !(64 * 0xffff_fffe + 16
            < blob.ciphertext.len() < 64 * 0xffff_ffff + 16)),
{
}

} // verus!
