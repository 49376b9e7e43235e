//! KLAP, the transport of Tapo devices (P125 and the like): a two-phase
//! handshake over plain HTTP that sets up an AES-128-CBC session.
//!
//! Auth hash: SHA256(SHA1(username) + SHA1(password)).
//!
//! Handshake 1 sends a random 16-byte local seed; the device answers with
//! its remote seed (16 bytes) and a server hash (32 bytes) that must equal
//! SHA256(local_seed + remote_seed + auth_hash), and sets a TP_SESSIONID
//! cookie. Handshake 2 sends SHA256(remote_seed + local_seed + auth_hash).
//!
//! Keys, each SHA256 over a label and local_seed + remote_seed + auth_hash:
//! key = SHA256("lsk" ..)[0..16], iv = SHA256("iv" ..) of which the first
//! 12 bytes are the IV base and bytes 28..32 the first sequence number
//! (big-endian), sig = SHA256("ldk" ..)[0..28].
//!
//! A request increments the sequence number (wrapping), encrypts under the
//! IV base followed by the sequence number, and prefixes the ciphertext with
//! SHA256(sig + seq + ciphertext). A reply skips its 32-byte signature and
//! decrypts under the same IV.
//!
//! The network exchange itself is left to the caller, who hands each step
//! the status, head and body it received.

use vstd::prelude::*;
use vstd::utf8::{decode_utf8, encode_utf8, valid_utf8};
use crate::cipher::be_bytes_u32;
use crate::http::session_cookie;
use crate::text::{append_chars, decimal, decimal_chars};
use sha1::Digest;
use cbc::cipher::{BlockDecryptMut, BlockEncryptMut, KeyIvInit};
use rand::RngCore;

verus! {

/// Seconds allowed for each KLAP connect, read and write.
pub const KLAP_TIMEOUT_SECS: u64 = 10;

// ── Outside primitives ──────────────────────────────────────────────────────

/// The SHA-1 digest of `data`.
pub uninterp spec fn sha1_digest(data: Seq<u8>) -> Seq<u8>;

/// The SHA-256 digest of `data`.
pub uninterp spec fn sha256_digest(data: Seq<u8>) -> Seq<u8>;

/// AES-128-CBC encryption with PKCS#7 padding.
pub uninterp spec fn aes128_cbc_encrypt(key: Seq<u8>, iv: Seq<u8>, plain: Seq<u8>) -> Seq<u8>;

/// AES-128-CBC decryption with PKCS#7 unpadding; `None` when the input is
/// not a whole number of blocks or the padding is malformed.
pub uninterp spec fn aes128_cbc_decrypt(key: Seq<u8>, iv: Seq<u8>, data: Seq<u8>) -> Option<Seq<u8>>;

/// `sha1::Sha1::digest`: the 20-byte digest, named as a function of the input.
#[verifier::external_body]
fn sha1_of(data: &[u8]) -> (r: [u8; 20])
    ensures
        r@ == sha1_digest(data@),
{
    sha1::Sha1::digest(data).into()
}

/// `sha2::Sha256::digest`: the 32-byte digest, named as a function of the input.
#[verifier::external_body]
fn sha256_of(data: &[u8]) -> (r: [u8; 32])
    ensures
        r@ == sha256_digest(data@),
{
    sha2::Sha256::digest(data).into()
}

/// `cbc::Encryptor::<aes::Aes128>::encrypt_padded_vec_mut::<Pkcs7>`. Besides
/// naming the ciphertext, the contract states that decrypting it under the
/// same key and IV gives the plaintext back.
#[verifier::external_body]
fn aes_encrypt(key: &[u8; 16], iv: &[u8; 16], plain: &[u8]) -> (r: Vec<u8>)
    ensures
        r@ == aes128_cbc_encrypt(key@, iv@, plain@),
        aes128_cbc_decrypt(key@, iv@, r@) == Some(plain@),
{
    cbc::Encryptor::<aes::Aes128>::new(&(*key).into(), &(*iv).into())
        .encrypt_padded_vec_mut::<cbc::cipher::block_padding::Pkcs7>(plain)
}

/// `cbc::Decryptor::<aes::Aes128>::decrypt_padded_vec_mut::<Pkcs7>`, its
/// result named as a function of key, IV and input.
#[verifier::external_body]
fn aes_decrypt(key: &[u8; 16], iv: &[u8; 16], data: &[u8]) -> (r: Option<Vec<u8>>)
    ensures
        match r {
            Some(v) => aes128_cbc_decrypt(key@, iv@, data@) == Some(v@),
            None => aes128_cbc_decrypt(key@, iv@, data@) is None,
        },
{
    match cbc::Decryptor::<aes::Aes128>::new(&(*key).into(), &(*iv).into())
        .decrypt_padded_vec_mut::<cbc::cipher::block_padding::Pkcs7>(data) {
        Ok(v) => Some(v),
        Err(_) => None,
    }
}

/// `rand::thread_rng().fill_bytes`: 16 random bytes; nothing is claimed
/// about them.
#[verifier::external_body]
fn random_seed() -> (r: [u8; 16]) {
    let mut seed = [0u8; 16];
    rand::thread_rng().fill_bytes(&mut seed);
    seed
}

/// The text that `bytes` hold when it is UTF-8; otherwise the standard
/// message of the failed conversion.
pub uninterp spec fn utf8_error_text(bytes: Seq<u8>) -> Seq<char>;

/// `String::from_utf8`: the text that `bytes` encode when they are valid
/// UTF-8 (as its documentation states), else the message of its error,
/// named as a function of the bytes.
#[verifier::external_body]
pub(crate) fn utf8_or_message(bytes: Vec<u8>) -> (r: Result<String, String>)
    ensures
        match r {
            Ok(s) => valid_utf8(bytes@) && s@ == decode_utf8(bytes@),
            Err(m) => !valid_utf8(bytes@) && m@ == utf8_error_text(bytes@),
        },
{
    match String::from_utf8(bytes) {
        Ok(s) => Ok(s),
        Err(e) => Err(e.to_string()),
    }
}

// ── Byte helpers ─────────────────────────────────────────────────────────────

fn push_all(v: &mut Vec<u8>, s: &[u8])
    ensures
        final(v)@ == old(v)@ + s@,
{
    let mut i: usize = 0;
    while i < s.len()
        invariant
            i <= s@.len(),
            v@ == old(v)@ + s@.subrange(0, i as int),
        decreases s@.len() - i,
    {
        v.push(s[i]);
        i = i + 1;
        assert(v@ =~= old(v)@ + s@.subrange(0, i as int));
    }
    assert(s@.subrange(0, s@.len() as int) =~= s@);
}

fn bytes_eq(a: &[u8], b: &[u8]) -> (r: bool)
    ensures
        r == (a@ == b@),
{
    if a.len() != b.len() {
        return false;
    }
    let mut i: usize = 0;
    while i < a.len()
        invariant
            i <= a@.len(),
            a@.len() == b@.len(),
            forall|j: int| 0 <= j < i ==> a@[j] == b@[j],
        decreases a@.len() - i,
    {
        if a[i] != b[i] {
            return false;
        }
        i = i + 1;
    }
    assert(a@ =~= b@);
    true
}

/// The big-endian bytes of a 32-bit value.
fn be4(n: u32) -> (r: [u8; 4])
    ensures
        r@ == be_bytes_u32(n),
{
    let r: [u8; 4] = [(n / 0x100_0000) as u8, ((n / 0x1_0000) % 0x100) as u8, ((n / 0x100) % 0x100) as u8, (n % 0x100) as u8];
    assert(r@ =~= be_bytes_u32(n));
    r
}

// ── The handshake ────────────────────────────────────────────────────────────

/// The bytes of the label "lsk".
pub open spec fn label_lsk() -> Seq<u8> {
    seq![0x6cu8, 0x73u8, 0x6bu8]
}

/// The bytes of the label "iv".
pub open spec fn label_iv() -> Seq<u8> {
    seq![0x69u8, 0x76u8]
}

/// The bytes of the label "ldk".
pub open spec fn label_ldk() -> Seq<u8> {
    seq![0x6cu8, 0x64u8, 0x6bu8]
}

/// The auth hash of a Tapo account.
pub open spec fn auth_hash_of(username: Seq<char>, password: Seq<char>) -> Seq<u8> {
    sha256_digest(sha1_digest(encode_utf8(username)) + sha1_digest(encode_utf8(password)))
}

/// The auth hash of a Tapo account: SHA256(SHA1(username) + SHA1(password)).
pub fn auth_hash(username: &str, password: &str) -> (h: [u8; 32])
    ensures
        h@ == auth_hash_of(username@, password@),
{
    let un = sha1_of(username.as_bytes());
    let pw = sha1_of(password.as_bytes());
    let mut buf: Vec<u8> = Vec::new();
    push_all(&mut buf, &un);
    push_all(&mut buf, &pw);
    assert(buf@ =~= un@ + pw@);
    sha256_of(&buf)
}

/// What opens a handshake: the account's auth hash and a fresh local seed.
pub struct HandshakeStart {
    pub auth_hash: [u8; 32],
    pub local_seed: [u8; 16],
}

/// What the first phase established: the device's seed and the session
/// cookie.
pub struct Handshake1 {
    pub remote_seed: [u8; 16],
    pub cookie: String,
}

/// Why a KLAP exchange failed.
#[derive(Debug)]
pub enum KlapError {
    /// The first handshake answered with this HTTP status.
    Handshake1Status(u16),
    /// The first handshake set no session cookie.
    NoSessionCookie,
    /// The first handshake's body had this many bytes, fewer than 48.
    Handshake1TooShort(usize),
    /// The device's hash did not prove that it knows the auth hash.
    AuthenticationFailed,
    /// The second handshake answered with this HTTP status.
    Handshake2Status(u16),
    /// A request answered with this HTTP status.
    RequestStatus(u16),
    /// A request was answered with an empty body.
    EmptyBody,
    /// A reply had this many bytes, fewer than its 32-byte signature.
    ReplyTooShort(usize),
    /// A reply did not decrypt (bad length or padding).
    Decrypt,
    /// A reply decrypted to bytes that are not UTF-8; the conversion's message.
    NotUtf8(String),
}

/// The message of a KLAP failure with device `host`.
pub open spec fn klap_error_message(e: KlapError, host: Seq<char>) -> Seq<char> {
    match e {
        KlapError::Handshake1Status(s) => "Handshake 1 failed: HTTP "@ + decimal(s as nat),
        KlapError::NoSessionCookie => "No TP_SESSIONID cookie from "@ + host,
        KlapError::Handshake1TooShort(n) => "Handshake 1 response too short ("@ + decimal(n as nat) + " bytes)"@,
        KlapError::AuthenticationFailed => "Authentication failed for "@ + host + " \u{2014} check TAPO_USER and TAPO_PASS"@,
        KlapError::Handshake2Status(s) => "Handshake 2 failed: HTTP "@ + decimal(s as nat),
        KlapError::RequestStatus(s) => "Request failed: HTTP "@ + decimal(s as nat),
        KlapError::EmptyBody => "Tapo request returned empty body (missing Content-Length in response)"@,
        KlapError::ReplyTooShort(n) => "Response too short to decrypt ("@ + decimal(n as nat) + " bytes)"@,
        KlapError::Decrypt => "AES decrypt error: UnpadError"@,
        KlapError::NotUtf8(m) => m@,
    }
}

impl KlapError {
    /// The message of this failure with device `host`.
    pub fn message(&self, host: &str) -> (m: String)
        ensures
            m@ == klap_error_message(*self, host@),
    {
        let mut m = String::new();
        match self {
            KlapError::Handshake1Status(s) => {
                m.append("Handshake 1 failed: HTTP ");
                append_chars(&mut m, &decimal_chars(*s as u64));
            },
            KlapError::NoSessionCookie => {
                m.append("No TP_SESSIONID cookie from ");
                m.append(host);
            },
            KlapError::Handshake1TooShort(n) => {
                m.append("Handshake 1 response too short (");
                append_chars(&mut m, &decimal_chars(*n as u64));
                m.append(" bytes)");
            },
            KlapError::AuthenticationFailed => {
                m.append("Authentication failed for ");
                m.append(host);
                m.append(" \u{2014} check TAPO_USER and TAPO_PASS");
            },
            KlapError::Handshake2Status(s) => {
                m.append("Handshake 2 failed: HTTP ");
                append_chars(&mut m, &decimal_chars(*s as u64));
            },
            KlapError::RequestStatus(s) => {
                m.append("Request failed: HTTP ");
                append_chars(&mut m, &decimal_chars(*s as u64));
            },
            KlapError::EmptyBody => {
                m.append("Tapo request returned empty body (missing Content-Length in response)");
            },
            KlapError::ReplyTooShort(n) => {
                m.append("Response too short to decrypt (");
                append_chars(&mut m, &decimal_chars(*n as u64));
                m.append(" bytes)");
            },
            KlapError::Decrypt => {
                m.append("AES decrypt error: UnpadError");
            },
            KlapError::NotUtf8(t) => {
                m.append(t.as_str());
            },
        }
        m
    }
}

/// Opens a handshake for the account `username` / `password` with a fresh
/// random local seed.
pub fn begin_handshake(username: &str, password: &str) -> (s: HandshakeStart)
    ensures
        s.auth_hash@ == auth_hash_of(username@, password@),
{
    HandshakeStart { auth_hash: auth_hash(username, password), local_seed: random_seed() }
}

/// The outcome of the first handshake phase, in the order its checks run:
/// the HTTP status, the session cookie, the body length, the server hash.
/// On success: the remote seed and the cookie.
pub open spec fn handshake1_outcome(
    local_seed: Seq<u8>,
    auth: Seq<u8>,
    status: u16,
    head: Seq<char>,
    body: Seq<u8>,
) -> Result<(Seq<u8>, Seq<char>), KlapError> {
    if status != 200 {
        Err(KlapError::Handshake1Status(status))
    } else {
        match session_cookie(head) {
            None => Err(KlapError::NoSessionCookie),
            Some(c) => if body.len() < 48 {
                Err(KlapError::Handshake1TooShort(body.len() as usize))
            } else if sha256_digest(local_seed + body.take(16) + auth) != body.subrange(16, 48) {
                Err(KlapError::AuthenticationFailed)
            } else {
                Ok((body.take(16), c))
            },
        }
    }
}

/// Checks the answer to the first handshake (`status`, response `head` and
/// `body`) and keeps what the session needs from it.
pub fn finish_handshake1(start: &HandshakeStart, status: u16, head: &str, body: &[u8]) -> (r: Result<Handshake1, KlapError>)
    ensures
        match r {
            Ok(h) => handshake1_outcome(start.local_seed@, start.auth_hash@, status, head@, body@)
                == Ok::<(Seq<u8>, Seq<char>), KlapError>((h.remote_seed@, h.cookie@)),
            Err(e) => handshake1_outcome(start.local_seed@, start.auth_hash@, status, head@, body@)
                == Err::<(Seq<u8>, Seq<char>), KlapError>(e),
        },
{
    if status != 200 {
        return Err(KlapError::Handshake1Status(status));
    }
    let cookie = match crate::http::parse_session_cookie(head) {
        Some(c) => c,
        None => {
            return Err(KlapError::NoSessionCookie);
        },
    };
    if body.len() < 48 {
        return Err(KlapError::Handshake1TooShort(body.len()));
    }
    let mut remote_seed = [0u8; 16];
    let mut i: usize = 0;
    while i < 16
        invariant
            i <= 16,
            body@.len() >= 48,
            forall|j: int| 0 <= j < i ==> remote_seed@[j] == body@[j],
        decreases 16 - i,
    {
        remote_seed[i] = body[i];
        i = i + 1;
    }
    assert(remote_seed@ =~= body@.take(16));
    let mut proof_input: Vec<u8> = Vec::new();
    push_all(&mut proof_input, &start.local_seed);
    push_all(&mut proof_input, &remote_seed);
    push_all(&mut proof_input, &start.auth_hash);
    let expected = sha256_of(&proof_input);
    if !server_hash_matches(&expected, body) {
        return Err(KlapError::AuthenticationFailed);
    }
    Ok(Handshake1 { remote_seed, cookie })
}

/// Whether the server hash in a first-phase answer `body` (its bytes
/// 16..48) is `expected`.
pub fn server_hash_matches(expected: &[u8; 32], body: &[u8]) -> (b: bool)
    requires
        body@.len() >= 48,
    ensures
        b == (expected@ == body@.subrange(16, 48)),
{
    let mut server_hash: Vec<u8> = Vec::new();
    let mut k: usize = 16;
    while k < 48
        invariant
            16 <= k <= 48,
            body@.len() >= 48,
            server_hash@ == body@.subrange(16, k as int),
        decreases 48 - k,
    {
        server_hash.push(body[k]);
        k = k + 1;
        assert(server_hash@ =~= body@.subrange(16, k as int));
    }
    bytes_eq(expected, &server_hash)
}

/// A device that knows the auth hash gets through the first phase: when it
/// answers 200 with a session cookie and a body made of its seed and
/// SHA256(local_seed + remote_seed + auth_hash), the phase yields that seed
/// and that cookie.
pub proof fn law_honest_device_passes(
    local_seed: Seq<u8>,
    auth: Seq<u8>,
    head: Seq<char>,
    remote_seed: Seq<u8>,
)
    requires
        remote_seed.len() == 16,
        sha256_digest(local_seed + remote_seed + auth).len() == 32,
        session_cookie(head) is Some,
    ensures
        handshake1_outcome(local_seed, auth, 200, head, remote_seed + sha256_digest(local_seed + remote_seed + auth))
            == Ok::<(Seq<u8>, Seq<char>), KlapError>((remote_seed, session_cookie(head)->Some_0)),
{
    let proof = sha256_digest(local_seed + remote_seed + auth);
    let body = remote_seed + proof;
    assert(body.take(16) =~= remote_seed);
    assert(body.subrange(16, 48) =~= proof);
}

/// The proof that the client knows the auth hash, sent in the second phase:
/// SHA256(remote_seed + local_seed + auth_hash).
pub open spec fn client_proof_of(local_seed: Seq<u8>, remote_seed: Seq<u8>, auth: Seq<u8>) -> Seq<u8> {
    sha256_digest(remote_seed + local_seed + auth)
}

/// The body of the second handshake request.
pub fn client_proof(start: &HandshakeStart, h1: &Handshake1) -> (p: [u8; 32])
    ensures
        p@ == client_proof_of(start.local_seed@, h1.remote_seed@, start.auth_hash@),
{
    let mut input: Vec<u8> = Vec::new();
    push_all(&mut input, &h1.remote_seed);
    push_all(&mut input, &start.local_seed);
    push_all(&mut input, &start.auth_hash);
    sha256_of(&input)
}

// ── The session ──────────────────────────────────────────────────────────────

/// An established KLAP session: derived key material, the running sequence
/// number, the session cookie and the device's address.
pub struct KlapSession {
    key: [u8; 16],
    iv_base: [u8; 12],
    sig: [u8; 28],
    seq: i32,
    cookie: String,
    host: String,
}

/// The abstract state of a session.
pub struct SessionView {
    pub key: Seq<u8>,
    pub iv_base: Seq<u8>,
    pub sig: Seq<u8>,
    pub seq: i32,
    pub cookie: Seq<char>,
    pub host: Seq<char>,
}

impl View for KlapSession {
    type V = SessionView;

    closed spec fn view(&self) -> SessionView {
        SessionView {
            key: self.key@,
            iv_base: self.iv_base@,
            sig: self.sig@,
            seq: self.seq,
            cookie: self.cookie@,
            host: self.host@,
        }
    }
}

/// The SHA-256 of `label` + local seed + remote seed + auth hash.
pub open spec fn derive(label: Seq<u8>, local_seed: Seq<u8>, remote_seed: Seq<u8>, auth: Seq<u8>) -> Seq<u8> {
    sha256_digest(label + local_seed + remote_seed + auth)
}

/// The signed value of four big-endian bytes.
pub open spec fn i32_from_be(b: Seq<u8>) -> i32 {
    ((b[0] as int) * 0x100_0000 + (b[1] as int) * 0x1_0000 + (b[2] as int) * 0x100 + (b[3] as int)) as i32
}

/// The session that a completed handshake sets up.
pub open spec fn derived_session(
    local_seed: Seq<u8>,
    remote_seed: Seq<u8>,
    auth: Seq<u8>,
    cookie: Seq<char>,
    host: Seq<char>,
) -> SessionView {
    let iv_full = derive(label_iv(), local_seed, remote_seed, auth);
    SessionView {
        key: derive(label_lsk(), local_seed, remote_seed, auth).take(16),
        iv_base: iv_full.take(12),
        sig: derive(label_ldk(), local_seed, remote_seed, auth).take(28),
        seq: i32_from_be(iv_full.subrange(28, 32)),
        cookie,
        host,
    }
}

/// The session a completed handshake sets up uses as its AES key the first
/// 16 bytes of SHA256("lsk" + local seed + remote seed + auth hash), as its
/// IV base the first 12 bytes of SHA256("iv" + ...), and as its signature
/// material the first 28 bytes of SHA256("ldk" + ...), where the three seeds
/// are joined in that order.
pub proof fn law_session_material(
    local_seed: Seq<u8>,
    remote_seed: Seq<u8>,
    auth: Seq<u8>,
    cookie: Seq<char>,
    host: Seq<char>,
)
    ensures
        ({
            let s = derived_session(local_seed, remote_seed, auth, cookie, host);
            let seeds = local_seed + remote_seed + auth;
            &&& s.key == sha256_digest(seq![0x6cu8, 0x73u8, 0x6bu8] + seeds).take(16)
            &&& s.iv_base == sha256_digest(seq![0x69u8, 0x76u8] + seeds).take(12)
            &&& s.sig == sha256_digest(seq![0x6cu8, 0x64u8, 0x6bu8] + seeds).take(28)
            &&& s.cookie == cookie && s.host == host
        }),
{
    let seeds = local_seed + remote_seed + auth;
    assert(label_lsk() + local_seed + remote_seed + auth =~= seq![0x6cu8, 0x73u8, 0x6bu8] + seeds);
    assert(label_iv() + local_seed + remote_seed + auth =~= seq![0x69u8, 0x76u8] + seeds);
    assert(label_ldk() + local_seed + remote_seed + auth =~= seq![0x6cu8, 0x64u8, 0x6bu8] + seeds);
}

fn derive_exec(label: &[u8], start: &HandshakeStart, h1: &Handshake1) -> (d: [u8; 32])
    ensures
        d@ == derive(label@, start.local_seed@, h1.remote_seed@, start.auth_hash@),
{
    let mut input: Vec<u8> = Vec::new();
    push_all(&mut input, label);
    push_all(&mut input, &start.local_seed);
    push_all(&mut input, &h1.remote_seed);
    push_all(&mut input, &start.auth_hash);
    sha256_of(&input)
}

/// Checks the answer to the second handshake and sets up the session with
/// device `host`.
pub fn finish_handshake2(start: &HandshakeStart, h1: Handshake1, status: u16, host: &str) -> (r: Result<KlapSession, KlapError>)
    ensures
        status != 200 <==> r is Err,
        match r {
            Ok(s) => s@ == derived_session(start.local_seed@, h1.remote_seed@, start.auth_hash@, h1.cookie@, host@),
            Err(e) => e == KlapError::Handshake2Status(status),
        },
        r matches Ok(s) ==> {
            let seeds = start.local_seed@ + h1.remote_seed@ + start.auth_hash@;
            // key: SHA256("lsk" + seeds)[0..16]; IV base: SHA256("iv" + seeds)[0..12];
            // signature: SHA256("ldk" + seeds)[0..28]
            &&& s@.key == sha256_digest(seq![0x6cu8, 0x73u8, 0x6bu8] + seeds).take(16)
            &&& s@.iv_base == sha256_digest(seq![0x69u8, 0x76u8] + seeds).take(12)
            &&& s@.sig == sha256_digest(seq![0x6cu8, 0x64u8, 0x6bu8] + seeds).take(28)
            &&& s@.cookie == h1.cookie@ && s@.host == host@
        },
{
    proof {
        law_session_material(start.local_seed@, h1.remote_seed@, start.auth_hash@, h1.cookie@, host@);
    }
    if status != 200 {
        return Err(KlapError::Handshake2Status(status));
    }
    let lsk: [u8; 3] = [0x6c, 0x73, 0x6b];
    let iv: [u8; 2] = [0x69, 0x76];
    let ldk: [u8; 3] = [0x6c, 0x64, 0x6b];
    assert(lsk@ =~= label_lsk());
    assert(iv@ =~= label_iv());
    assert(ldk@ =~= label_ldk());
    let key_full = derive_exec(&lsk, start, &h1);
    let iv_full = derive_exec(&iv, start, &h1);
    let sig_full = derive_exec(&ldk, start, &h1);
    let mut key = [0u8; 16];
    let mut i: usize = 0;
    while i < 16
        invariant
            i <= 16,
            forall|j: int| 0 <= j < i ==> key@[j] == key_full@[j],
        decreases 16 - i,
    {
        key[i] = key_full[i];
        i = i + 1;
    }
    let mut iv_base = [0u8; 12];
    let mut i: usize = 0;
    while i < 12
        invariant
            i <= 12,
            forall|j: int| 0 <= j < i ==> iv_base@[j] == iv_full@[j],
        decreases 12 - i,
    {
        iv_base[i] = iv_full[i];
        i = i + 1;
    }
    let mut sig = [0u8; 28];
    let mut i: usize = 0;
    while i < 28
        invariant
            i <= 28,
            forall|j: int| 0 <= j < i ==> sig@[j] == sig_full@[j],
        decreases 28 - i,
    {
        sig[i] = sig_full[i];
        i = i + 1;
    }
    let u: u32 = (iv_full[28] as u32) * 0x100_0000 + (iv_full[29] as u32) * 0x1_0000
        + (iv_full[30] as u32) * 0x100 + (iv_full[31] as u32);
    let seq: i32 = u as i32;
    let s = KlapSession { key, iv_base, sig, seq, cookie: h1.cookie, host: String::from_str(host) };
    proof {
        let d = derived_session(start.local_seed@, h1.remote_seed@, start.auth_hash@, h1.cookie@, host@);
        assert(key@ =~= d.key);
        assert(iv_base@ =~= d.iv_base);
        assert(sig@ =~= d.sig);
        assert(iv_full@.subrange(28, 32)[0] == iv_full@[28]);
        assert(iv_full@.subrange(28, 32)[1] == iv_full@[29]);
        assert(iv_full@.subrange(28, 32)[2] == iv_full@[30]);
        assert(iv_full@.subrange(28, 32)[3] == iv_full@[31]);
        assert(seq == d.seq);
    }
    Ok(s)
}

/// The sequence number after `s`: one more, wrapping at the top.
pub open spec fn next_seq(s: i32) -> i32 {
    if s == i32::MAX { i32::MIN } else { (s + 1) as i32 }
}

/// The IV for sequence number `seq`: the IV base and the number's four
/// big-endian bytes.
pub open spec fn iv_of(s: SessionView, seq: i32) -> Seq<u8> {
    s.iv_base + be_bytes_u32(seq as u32)
}

/// The request body for `plain` sent from state `s`: the signature
/// SHA256(sig + seq + ciphertext) followed by the ciphertext, where seq is
/// the next sequence number.
pub open spec fn request_payload(s: SessionView, plain: Seq<u8>) -> Seq<u8> {
    let n = next_seq(s.seq);
    let ct = aes128_cbc_encrypt(s.key, iv_of(s, n), plain);
    sha256_digest(s.sig + be_bytes_u32(n as u32) + ct) + ct
}

/// The plaintext of a reply `data` read in state `s`: the bytes after the
/// 32-byte signature, decrypted under the IV of the current sequence number.
pub open spec fn reply_plaintext(s: SessionView, data: Seq<u8>) -> Option<Seq<u8>> {
    if data.len() < 32 {
        None
    } else {
        aes128_cbc_decrypt(s.key, iv_of(s, s.seq), data.skip(32))
    }
}

/// The text of a reply `data` read in state `s`, or why there is none.
pub open spec fn reply_outcome(s: SessionView, data: Seq<u8>, r: Result<String, KlapError>) -> bool {
    if data.len() < 32 {
        r == Err::<String, KlapError>(KlapError::ReplyTooShort(data.len() as usize))
    } else {
        match reply_plaintext(s, data) {
            None => r == Err::<String, KlapError>(KlapError::Decrypt),
            Some(p) => match r {
                Ok(t) => valid_utf8(p) && t@ == decode_utf8(p),
                Err(KlapError::NotUtf8(m)) => !valid_utf8(p) && m@ == utf8_error_text(p),
                Err(_) => false,
            },
        }
    }
}

/// The decimal notation of a signed number.
pub open spec fn signed_decimal(x: int) -> Seq<char> {
    if x < 0 { "-"@ + decimal((-x) as nat) } else { decimal(x as nat) }
}

/// Whether the answer to a request (`status`, body length) can be read.
pub open spec fn reply_check(status: u16, body_len: nat) -> Option<KlapError> {
    if status != 200 {
        Some(KlapError::RequestStatus(status))
    } else if body_len == 0 {
        Some(KlapError::EmptyBody)
    } else {
        None
    }
}

/// Checks the answer to a request before it is decrypted.
pub fn check_reply(status: u16, body: &[u8]) -> (r: Result<(), KlapError>)
    ensures
        match r {
            Ok(()) => reply_check(status, body@.len()) is None,
            Err(e) => reply_check(status, body@.len()) == Some(e),
        },
{
    if status != 200 {
        Err(KlapError::RequestStatus(status))
    } else if body.len() == 0 {
        Err(KlapError::EmptyBody)
    } else {
        Ok(())
    }
}

impl KlapSession {
    /// The session cookie, sent with every request.
    pub fn cookie(&self) -> (c: &str)
        ensures
            c@ == self@.cookie,
    {
        self.cookie.as_str()
    }

    /// The device's address.
    pub fn host(&self) -> (h: &str)
        ensures
            h@ == self@.host,
    {
        self.host.as_str()
    }

    /// The current sequence number.
    pub fn seq(&self) -> (s: i32)
        ensures
            s == self@.seq,
    {
        self.seq
    }

    /// The IV for sequence number `seq`.
    pub fn iv_for_seq(&self, seq: i32) -> (iv: [u8; 16])
        ensures
            iv@ == iv_of(self@, seq),
    {
        let tail = be4(seq as u32);
        let mut iv = [0u8; 16];
        let mut i: usize = 0;
        while i < 12
            invariant
                i <= 12,
                forall|j: int| 0 <= j < i ==> iv@[j] == self.iv_base@[j],
            decreases 12 - i,
        {
            iv[i] = self.iv_base[i];
            i = i + 1;
        }
        while i < 16
            invariant
                12 <= i <= 16,
                forall|j: int| 0 <= j < 12 ==> iv@[j] == self.iv_base@[j],
                forall|j: int| 12 <= j < i ==> iv@[j] == tail@[j - 12],
            decreases 16 - i,
        {
            iv[i] = tail[i - 12];
            i = i + 1;
        }
        assert(iv@ =~= iv_of(self@, seq));
        iv
    }

    /// Encrypts `plain` as the next request: advances the sequence number
    /// and returns the request body with the new sequence number. The body,
    /// read back as a reply in the new state, gives `plain`.
    pub fn encrypt(&mut self, plain: &[u8]) -> (r: (Vec<u8>, i32))
        ensures
            final(self)@ == (SessionView { seq: next_seq(old(self)@.seq), ..old(self)@ }),
            r.1 == final(self)@.seq,
            r.0@ == request_payload(old(self)@, plain@),
            reply_plaintext(final(self)@, r.0@) == Some(plain@),
    {
        self.seq = self.seq.wrapping_add(1);
        let iv = self.iv_for_seq(self.seq);
        let ciphertext = aes_encrypt(&self.key, &iv, plain);
        let seq_bytes = be4(self.seq as u32);
        let mut input: Vec<u8> = Vec::new();
        push_all(&mut input, &self.sig);
        push_all(&mut input, &seq_bytes);
        push_all(&mut input, &ciphertext);
        let tag = sha256_of(&input);
        let mut payload: Vec<u8> = Vec::new();
        push_all(&mut payload, &tag);
        push_all(&mut payload, &ciphertext);
        proof {
            assert(payload@.skip(32) =~= ciphertext@);
        }
        (payload, self.seq)
    }

    /// Decrypts a reply: skips its 32-byte signature and decrypts the rest
    /// under the IV of the current sequence number.
    pub fn decrypt(&self, data: &[u8]) -> (r: Result<String, KlapError>)
        ensures
            reply_outcome(self@, data@, r),
    {
        if data.len() < 32 {
            return Err(KlapError::ReplyTooShort(data.len()));
        }
        let iv = self.iv_for_seq(self.seq);
        let mut body: Vec<u8> = Vec::new();
        let mut i: usize = 32;
        while i < data.len()
            invariant
                32 <= i <= data@.len(),
                body@ == data@.subrange(32, i as int),
            decreases data@.len() - i,
        {
            body.push(data[i]);
            i = i + 1;
            assert(body@ =~= data@.subrange(32, i as int));
        }
        assert(body@ =~= data@.skip(32));
        reply_text(aes_decrypt(&self.key, &iv, &body))
    }
}

/// The text of a reply whose decryption gave `plain` (`None` when it did
/// not decrypt).
pub open spec fn reply_text_outcome(plain: Option<Seq<u8>>, r: Result<String, KlapError>) -> bool {
    match plain {
        None => r == Err::<String, KlapError>(KlapError::Decrypt),
        Some(p) => match r {
            Ok(t) => valid_utf8(p) && t@ == decode_utf8(p),
            Err(KlapError::NotUtf8(m)) => !valid_utf8(p) && m@ == utf8_error_text(p),
            Err(_) => false,
        },
    }
}

/// The text of a reply whose decryption gave `plain`: refused when it did
/// not decrypt or is not UTF-8.
pub fn reply_text(plain: Option<Vec<u8>>) -> (r: Result<String, KlapError>)
    ensures
        reply_text_outcome(match plain { Some(p) => Some(p@), None => None }, r),
{
    match plain {
        None => Err(KlapError::Decrypt),
        Some(p) => match utf8_or_message(p) {
            Ok(t) => Ok(t),
            Err(m) => Err(KlapError::NotUtf8(m)),
        },
    }
}

/// The request path for sequence number `seq`.
pub open spec fn request_path_of(seq: i32) -> Seq<char> {
    "/app/request?seq="@ + signed_decimal(seq as int)
}

/// The request path for sequence number `seq` ("/app/request?seq=…").
pub fn request_path(seq: i32) -> (p: String)
    ensures
        p@ == request_path_of(seq),
{
    let mut p = String::from_str("/app/request?seq=");
    if seq < 0 {
        p.append("-");
        let m: i64 = -(seq as i64);
        append_chars(&mut p, &decimal_chars(m as u64));
    } else {
        append_chars(&mut p, &decimal_chars(seq as u64));
    }
    p
}

} // verus!
