//! Saved cluster metadata: a set of named configs with an active one, kept on
//! disk encrypted with AES-256-GCM under a locally generated key.
use vstd::prelude::*;

use aes_gcm::aead::{Aead, KeyInit};
use base64::Engine;
use rand::RngCore;

use crate::config::{config_home_of, home_dir, join_path, path_join, Config, ConfigView};
use crate::strmap::StrMap;
use crate::text::{owned, push_str, to_chars, trim, trim_string};

verus! {

pub const KEY_BYTES: usize = 32;

pub const NONCE_BYTES: usize = 12;

/// The longest plaintext AES-256-GCM seals (2^36 bytes).
pub const MAX_PLAINTEXT_BYTES: u64 = 68719476736;

/// Named cluster configs and the name of the active one.
#[derive(Debug)]
pub struct ClusterStore {
    pub active: Option<String>,
    pub clusters: StrMap<Config>,
}

impl ClusterStore {
    /// An empty store (the state before anything was saved).
    pub fn new() -> (r: Self)
        ensures
            r.active is None,
            r.clusters@ == Map::<Seq<char>, ConfigView>::empty(),
    {
        ClusterStore { active: None, clusters: StrMap::new() }
    }

    /// The saved config named `name`.
    pub fn get(&self, name: &str) -> (r: Option<Config>)
        ensures
            r is Some == self.clusters@.contains_key(name@),
            r matches Some(c) ==> c@ == self.clusters@[name@],
    {
        match self.clusters.get(name) {
            Some(c) => Some(c.clone()),
            None => None,
        }
    }

    /// The config of the active saved cluster, if one is active and saved.
    pub fn active_config(&self) -> (r: Option<Config>)
        ensures
            self.active is None ==> r is None,
            self.active matches Some(a) ==> (r is Some == self.clusters@.contains_key(a@)) && (r matches Some(
                c,
            ) ==> c@ == self.clusters@[a@]),
    {
        match &self.active {
            Some(name) => self.get(name.as_str()),
            None => None,
        }
    }

    /// The saved names in ascending order.
    pub fn names(&self) -> (r: Vec<String>)
        ensures
            crate::text::string_views(r@) == self.clusters.keys_in_order(),
    {
        self.clusters.keys()
    }
}

pub open spec fn missing_cluster_message(name: Seq<char>) -> Seq<char> {
    "saved cluster '"@ + name + "' does not exist"@
}

/// The saved cluster `name`, or the error shown when it does not exist.
pub fn load_cluster(store: &ClusterStore, name: &str) -> (r: Result<Config, String>)
    ensures
        r is Ok == store.clusters@.contains_key(name@),
        r matches Ok(c) ==> c@ == store.clusters@[name@],
        r matches Err(m) ==> m@ == missing_cluster_message(name@),
{
    match store.get(name) {
        Some(c) => Ok(c),
        None => {
            let mut m = owned("saved cluster '");
            push_str(&mut m, name);
            push_str(&mut m, "' does not exist");
            Err(m)
        },
    }
}

/// The active saved cluster's config, if any.
pub fn active_cluster(store: &ClusterStore) -> (r: Option<Config>)
    ensures
        store.active is None ==> r is None,
        store.active matches Some(a) ==> (r is Some == store.clusters@.contains_key(a@)) && (r matches Some(
            c,
        ) ==> c@ == store.clusters@[a@]),
{
    store.active_config()
}

pub open spec fn store_path_of(home: Seq<char>) -> Seq<char> {
    path_join(config_home_of(home), "clusters.enc"@)
}

pub open spec fn key_path_of(home: Seq<char>) -> Seq<char> {
    path_join(config_home_of(home), "key"@)
}

pub fn store_path_in(home: &str) -> (r: String)
    ensures
        r@ == store_path_of(home@),
{
    let h = crate::config::config_home_in(home);
    join_path(h.as_str(), "clusters.enc")
}

pub fn key_path_in(home: &str) -> (r: String)
    ensures
        r@ == key_path_of(home@),
{
    let h = crate::config::config_home_in(home);
    join_path(h.as_str(), "key")
}

/// Path of the encrypted store (`~/.doris-cli/clusters.enc`).
pub fn store_path() -> (r: Option<String>)
    ensures
        r matches Some(p) ==> exists|h: Seq<char>| p@ == store_path_of(h),
{
    match home_dir() {
        Some(h) => Some(store_path_in(h.as_str())),
        None => None,
    }
}

/// Path of the store key (`~/.doris-cli/key`).
pub fn key_path() -> (r: Option<String>)
    ensures
        r matches Some(p) ==> exists|h: Seq<char>| p@ == key_path_of(h),
{
    match home_dir() {
        Some(h) => Some(key_path_in(h.as_str())),
        None => None,
    }
}

// ---------------------------------------------------------------------------
// Encryption at rest
// ---------------------------------------------------------------------------

/// The on-disk form of the store: format version, base64 nonce and base64
/// AES-256-GCM ciphertext of the YAML document.
#[derive(Debug)]
pub struct EncryptedStore {
    pub version: u8,
    pub nonce: String,
    pub ciphertext: String,
}

/// Standard base64 (with padding) of a byte string.
pub uninterp spec fn base64_text(bytes: Seq<u8>) -> Seq<char>;

/// The bytes that standard base64 decoding yields from a text, if it decodes.
pub uninterp spec fn base64_bytes(text: Seq<char>) -> Option<Seq<u8>>;

/// AES-256-GCM encryption (no associated data) of `pt` under `key`/`nonce`.
pub uninterp spec fn aes_gcm_seal(key: Seq<u8>, nonce: Seq<u8>, pt: Seq<u8>) -> Option<Seq<u8>>;

/// AES-256-GCM decryption (no associated data); none when authentication fails.
pub uninterp spec fn aes_gcm_open(key: Seq<u8>, nonce: Seq<u8>, ct: Seq<u8>) -> Option<Seq<u8>>;

/// A character of the standard base64 alphabet or its `=` padding.
pub open spec fn is_base64_char(c: char) -> bool {
    crate::text::is_alnum(c) || c == '+' || c == '/' || c == '='
}

/// `base64::engine::general_purpose::STANDARD.encode`. Claimed: the text is
/// the named encoding of the bytes, it uses only the standard alphabet and
/// `=` padding, and decoding it gives the bytes back.
#[verifier::external_body]
fn b64_encode(bytes: &[u8]) -> (r: String)
    ensures
        r@ == base64_text(bytes@),
        forall|i: int| 0 <= i < r@.len() ==> is_base64_char(#[trigger] r@[i]),
        base64_bytes(r@) == Some(bytes@),
{
    base64::engine::general_purpose::STANDARD.encode(bytes)
}

/// `base64::engine::general_purpose::STANDARD.decode` of a text's bytes.
/// Claimed: the result is the named decoding of the text.
#[verifier::external_body]
fn b64_decode(text: &str) -> (r: Option<Vec<u8>>)
    ensures
        r matches Some(v) ==> base64_bytes(text@) == Some(v@),
        r is None ==> base64_bytes(text@) is None,
{
    base64::engine::general_purpose::STANDARD.decode(text.as_bytes()).ok()
}

/// `Aes256Gcm::new_from_slice(key)` then `encrypt(Nonce::from_slice(nonce),
/// pt)`. Claimed: the result is the named encryption, and decrypting it with
/// the same key and nonce gives `pt` back (AEAD correctness). It succeeds
/// exactly when the key is 32 bytes long (`new_from_slice`) and the plaintext
/// is at most `MAX_PLAINTEXT_BYTES` long (AES-GCM's `P_MAX`; no associated
/// data is passed). A nonce of any length other than 12 panics in
/// `Nonce::from_slice`, hence the requirement.
#[verifier::external_body]
fn aes_encrypt(key: &[u8], nonce: &[u8], pt: &[u8]) -> (r: Option<Vec<u8>>)
    requires
        nonce@.len() == NONCE_BYTES,
    ensures
        r matches Some(ct) ==> aes_gcm_seal(key@, nonce@, pt@) == Some(ct@) && aes_gcm_open(
            key@,
            nonce@,
            ct@,
        ) == Some(pt@),
        r is None ==> aes_gcm_seal(key@, nonce@, pt@) is None,
        r is Some <==> (key@.len() == KEY_BYTES && pt@.len() <= MAX_PLAINTEXT_BYTES),
{
    let cipher = match aes_gcm::Aes256Gcm::new_from_slice(key) { Ok(c) => c, Err(_) => return None };
    cipher.encrypt(aes_gcm::Nonce::from_slice(nonce), pt).ok()
}

/// `Aes256Gcm::new_from_slice(key)` then `decrypt(Nonce::from_slice(nonce),
/// ct)`. Claimed: the result is the named decryption.
#[verifier::external_body]
fn aes_decrypt(key: &[u8], nonce: &[u8], ct: &[u8]) -> (r: Option<Vec<u8>>)
    requires
        nonce@.len() == NONCE_BYTES,
    ensures
        r matches Some(pt) ==> aes_gcm_open(key@, nonce@, ct@) == Some(pt@),
        r is None ==> aes_gcm_open(key@, nonce@, ct@) is None,
{
    let cipher = match aes_gcm::Aes256Gcm::new_from_slice(key) { Ok(c) => c, Err(_) => return None };
    cipher.decrypt(aes_gcm::Nonce::from_slice(nonce), ct).ok()
}

/// `n` bytes from the operating system's random source
/// (`OsRng::try_fill_bytes`), or none when the source fails. Only the length
/// is claimed. `n` is bounded as `vec!` needs (a larger buffer panics with a
/// capacity overflow).
#[verifier::external_body]
pub(crate) fn random_bytes(n: usize) -> (r: Option<Vec<u8>>)
    requires
        n <= isize::MAX,
    ensures
        r matches Some(v) ==> v@.len() == n,
{
    let mut v = vec![0u8; n];
    match rand::rngs::OsRng.try_fill_bytes(&mut v) {
        Ok(()) => Some(v),
        Err(_) => None,
    }
}

/// Seal a serialized store: AES-GCM under `key` with `nonce`, both the nonce
/// and the ciphertext base64-encoded, format version 1.
pub open spec fn sealed_store(key: Seq<u8>, nonce: Seq<u8>, pt: Seq<u8>) -> Option<(Seq<char>, Seq<char>)> {
    match aes_gcm_seal(key, nonce, pt) {
        Some(ct) => Some((base64_text(nonce), base64_text(ct))),
        None => None,
    }
}

/// Seal serialized store bytes. What it writes opens again, under the same
/// key, to exactly the bytes that were sealed.
pub fn encrypt_store(key: &[u8], nonce: &[u8], plaintext: &[u8]) -> (r: Result<
    EncryptedStore,
    String,
>)
    requires
        nonce@.len() == NONCE_BYTES,
    ensures
        r is Ok == sealed_store(key@, nonce@, plaintext@) is Some,
        r is Ok <==> (key@.len() == KEY_BYTES && plaintext@.len() <= MAX_PLAINTEXT_BYTES),
        r matches Ok(e) ==> e.version == 1 && sealed_store(key@, nonce@, plaintext@) == Some(
            (e.nonce@, e.ciphertext@),
        ),
        r matches Err(m) ==> m@ == "failed to encrypt cluster store"@,
        r matches Ok(e) ==> opened_store(key@, e) == Ok::<Seq<u8>, Seq<char>>(plaintext@),
{
    match aes_encrypt(key, nonce, plaintext) {
        Some(ct) => Ok(
            EncryptedStore {
                version: 1,
                nonce: b64_encode(nonce),
                ciphertext: b64_encode(ct.as_slice()),
            },
        ),
        None => Err(owned("failed to encrypt cluster store")),
    }
}

/// Seal serialized store bytes under `key` with a freshly drawn random
/// nonce. Whatever nonce is drawn, what comes out is the sealing under that
/// nonce and opens again under the same key to exactly the sealed bytes. It
/// fails when no nonce can be drawn, or when the key or plaintext does not
/// suit AES-256-GCM.
pub fn seal_store(key: &[u8], plaintext: &[u8]) -> (r: Result<EncryptedStore, String>)
    ensures
        r matches Ok(e) ==> e.version == 1 && opened_store(key@, e) == Ok::<Seq<u8>, Seq<char>>(
            plaintext@,
        ) && exists|n: Seq<u8>|
            n.len() == NONCE_BYTES && #[trigger] sealed_store(key@, n, plaintext@) == Some(
                (e.nonce@, e.ciphertext@),
            ),
        r is Ok ==> key@.len() == KEY_BYTES && plaintext@.len() <= MAX_PLAINTEXT_BYTES,
        r matches Err(m) ==> (m@ == "failed to draw a random nonce"@ || (m@
            == "failed to encrypt cluster store"@ && !(key@.len() == KEY_BYTES && plaintext@.len()
            <= MAX_PLAINTEXT_BYTES))),
{
    let nonce = match random_bytes(NONCE_BYTES) {
        Some(n) => n,
        None => return Err(owned("failed to draw a random nonce")),
    };
    let r = encrypt_store(key, nonce.as_slice(), plaintext);
    proof {
        if r is Ok {
            let e = r->Ok_0;
            assert(sealed_store(key@, nonce@, plaintext@) == Some((e.nonce@, e.ciphertext@)));
        }
    }
    r
}

/// A freshly drawn random key for a new key file, or the error when the
/// random source fails.
pub fn new_key() -> (r: Result<Vec<u8>, String>)
    ensures
        r matches Ok(k) ==> k@.len() == KEY_BYTES,
        r matches Err(m) ==> m@ == "failed to draw a random key"@,
{
    match random_bytes(KEY_BYTES) {
        Some(k) => Ok(k),
        None => Err(owned("failed to draw a random key")),
    }
}

/// The plaintext of an encrypted store, or the error that reading it gives.
pub open spec fn opened_store(key: Seq<u8>, e: EncryptedStore) -> Result<Seq<u8>, Seq<char>> {
    if e.version != 1 {
        Err("unsupported cluster store version"@)
    } else {
        match base64_bytes(e.nonce@) {
            None => Err("failed to decode cluster store nonce"@),
            Some(n) => if n.len() != NONCE_BYTES {
                Err("invalid cluster store nonce"@)
            } else {
                match base64_bytes(e.ciphertext@) {
                    None => Err("failed to decode cluster store ciphertext"@),
                    Some(ct) => match aes_gcm_open(key, n, ct) {
                        Some(pt) => Ok(pt),
                        None => Err("failed to decrypt cluster store"@),
                    },
                }
            },
        }
    }
}

/// Open an encrypted store: check the version, decode nonce and
/// ciphertext, and authenticate-decrypt under `key`.
pub fn decrypt_store(key: &[u8], e: &EncryptedStore) -> (r: Result<Vec<u8>, String>)
    ensures
        r is Ok == opened_store(key@, *e) is Ok,
        r matches Ok(pt) ==> opened_store(key@, *e) == Ok::<Seq<u8>, Seq<char>>(pt@),
        r matches Err(m) ==> opened_store(key@, *e) == Err::<Seq<u8>, Seq<char>>(m@),
{
    if e.version != 1 {
        return Err(owned("unsupported cluster store version"));
    }
    let nonce = match b64_decode(e.nonce.as_str()) {
        Some(n) => n,
        None => return Err(owned("failed to decode cluster store nonce")),
    };
    if nonce.len() != NONCE_BYTES {
        return Err(owned("invalid cluster store nonce"));
    }
    let ct = match b64_decode(e.ciphertext.as_str()) {
        Some(c) => c,
        None => return Err(owned("failed to decode cluster store ciphertext")),
    };
    match aes_decrypt(key, nonce.as_slice(), ct.as_slice()) {
        Some(pt) => Ok(pt),
        None => Err(owned("failed to decrypt cluster store")),
    }
}

/// The key bytes stored in the key file: the trimmed text base64-decoded,
/// exactly 32 bytes long.
pub open spec fn key_from_text(path: Seq<char>, text: Seq<char>) -> Result<Seq<u8>, Seq<char>> {
    match base64_bytes(trim(text)) {
        None => Err("failed to decode "@ + path),
        Some(b) => if b.len() != KEY_BYTES {
            Err("invalid cluster store key length"@)
        } else {
            Ok(b)
        },
    }
}

pub fn decode_key(path: &str, encoded: &str) -> (r: Result<Vec<u8>, String>)
    ensures
        r is Ok == key_from_text(path@, encoded@) is Ok,
        r matches Ok(k) ==> key_from_text(path@, encoded@) == Ok::<Seq<u8>, Seq<char>>(k@),
        r matches Err(m) ==> key_from_text(path@, encoded@) == Err::<Seq<u8>, Seq<char>>(m@),
{
    let ec = to_chars(encoded);
    let t = trim_string(ec.as_slice());
    match b64_decode(t.as_str()) {
        None => {
            let mut m = owned("failed to decode ");
            push_str(&mut m, path);
            Err(m)
        },
        Some(b) => {
            if b.len() != KEY_BYTES {
                Err(owned("invalid cluster store key length"))
            } else {
                Ok(b)
            }
        },
    }
}

/// The text written to a new key file: the base64 of the key. A key file
/// written from a key of the right length reads back as that key.
pub fn encode_key(key: &[u8]) -> (r: String)
    ensures
        r@ == base64_text(key@),
        base64_bytes(r@) == Some(key@),
        key@.len() == KEY_BYTES ==> forall|path: Seq<char>|
            #[trigger] key_from_text(path, r@) == Ok::<Seq<u8>, Seq<char>>(key@),
{
    let r = b64_encode(key);
    proof {
        assert forall|i: int| 0 <= i < r@.len() implies !crate::text::is_ws(#[trigger] r@[i]) by {
            assert(is_base64_char(r@[i]));
        }
        crate::text::lemma_trim_no_ws(r@);
    }
    r
}

} // verus!
