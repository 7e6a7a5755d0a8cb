//! Provider-key custody: the plaintext exists in memory only while a session is resident; at
//! rest the journal HEAD carries an opaque blob bound to its session id, so a blob copied onto
//! another session's row does not decrypt to the key.

use vstd::prelude::*;
use vstd::string::StringSliceAdditionalSpecFns;
use vstd::utf8::{encode_utf8, encode_utf8_valid_utf8, encode_utf8_decode_utf8};
use base64::Engine;
use crate::digest::{sha256, sha256_of};
use crate::error::{BrainError, Fault};

verus! {

/// KMS direct encryption accepts at most this many plaintext bytes; custody checks the bound
/// before any adapter is entered.
pub const MAX_CUSTODY_PLAINTEXT_BYTES: usize = 4096;

/// A custody plaintext must hold between one and `MAX_CUSTODY_PLAINTEXT_BYTES` UTF-8 bytes.
pub fn validate_custody_plaintext(label: &str, plaintext: &str) -> (r: Result<(), BrainError>)
    ensures
        r is Ok <==> (1 <= plaintext.spec_bytes().len() <= MAX_CUSTODY_PLAINTEXT_BYTES),
        r matches Err(e) ==> (e matches BrainError::Invalid(Fault::CustodyPlaintextSize { label: l })
            && l@ == label@),
{
    let bytes = plaintext.as_bytes().len();
    if bytes == 0 || bytes > MAX_CUSTODY_PLAINTEXT_BYTES {
        return Err(BrainError::Invalid(Fault::CustodyPlaintextSize { label: label.to_owned() }));
    }
    Ok(())
}

/// A provider credential. Its text is handed out only through `expose`.
pub struct ProviderKey {
    secret: String,
}

impl View for ProviderKey {
    type V = Seq<char>;

    closed spec fn view(&self) -> Seq<char> {
        self.secret@
    }
}

impl ProviderKey {
    pub fn new(secret: &str) -> (k: ProviderKey)
        ensures
            k@ == secret@,
    {
        ProviderKey { secret: secret.to_owned() }
    }

    pub fn expose(&self) -> (r: &str)
        ensures
            r@ == self@,
    {
        self.secret.as_str()
    }
}

/// Custody of provider keys, one session at a time. Adapters (a KMS, the local mask) decide
/// what the blob is; a blob is only ever decrypted for the session it was made for.
pub trait KeyCustody {
    /// Encrypt a provider key for one session, giving the opaque blob HEAD stores.
    fn encrypt(&self, session_id: &str, key: &ProviderKey) -> Result<Vec<u8>, BrainError>;

    /// Decrypt a blob written by `encrypt` for the same session.
    fn decrypt(&self, session_id: &str, blob: &[u8]) -> Result<ProviderKey, BrainError>;
}

/// The pad that masks a session's blobs: the SHA-256 digest of its id.
pub open spec fn session_pad(session_id: &str) -> Seq<u8> {
    sha256_of(session_id.spec_bytes())
}

/// Each byte XORed with the pad byte at its position, the pad repeating every 32 bytes.
pub open spec fn masked(pad: Seq<u8>, data: Seq<u8>) -> Seq<u8> {
    Seq::new(data.len(), |i: int| data[i] ^ pad[i % 32])
}

/// Local and test custody: an obfuscated, not cryptographically protected blob, bound to the
/// session id so that binding mistakes still surface.
pub struct PlainCustody;

impl PlainCustody {
    fn mask(session_id: &str, data: &[u8]) -> (r: Vec<u8>)
        ensures
            r@ == masked(session_pad(session_id), data@),
    {
        let pad = sha256(session_id.as_bytes());
        let mut out: Vec<u8> = Vec::new();
        let mut i: usize = 0;
        while i < data.len()
            invariant
                i <= data@.len(),
                pad@ == session_pad(session_id),
                pad@.len() == 32,
                out@ =~= masked(pad@, data@).subrange(0, i as int),
            decreases data.len() - i,
        {
            out.push(data[i] ^ pad[i % pad.len()]);
            i = i + 1;
        }
        out
    }

    /// Masking twice with one pad gives the data back.
    proof fn mask_is_involutive(pad: Seq<u8>, data: Seq<u8>)
        ensures
            masked(pad, masked(pad, data)) == data,
    {
        assert forall|i: int| 0 <= i < data.len() implies #[trigger] masked(pad, masked(pad, data))[i] == data[i] by {
            let d = data[i];
            let p = pad[i % 32];
            assert((d ^ p) ^ p == d) by (bit_vector);
        }
        assert(masked(pad, masked(pad, data)) =~= data);
    }
}

impl KeyCustody for PlainCustody {
    fn encrypt(&self, session_id: &str, key: &ProviderKey) -> (r: Result<Vec<u8>, BrainError>)
        ensures
            r matches Ok(blob) && blob@ == masked(session_pad(session_id), encode_utf8(key@)),
    {
        Ok(Self::mask(session_id, key.expose().as_bytes()))
    }

    fn decrypt(&self, session_id: &str, blob: &[u8]) -> (r: Result<ProviderKey, BrainError>)
        ensures
            match r {
                Ok(key) => encode_utf8(key@) == masked(session_pad(session_id), blob@),
                Err(e) => e == BrainError::Custody(Fault::CustodyWrongSession),
            },
            (exists|k: Seq<char>| encode_utf8(k) == masked(session_pad(session_id), blob@)) ==> r is Ok,
    {
        let buf = Self::mask(session_id, blob);
        proof {
            if exists|k: Seq<char>| encode_utf8(k) == masked(session_pad(session_id), blob@) {
                let k = choose|k: Seq<char>| encode_utf8(k) == masked(session_pad(session_id), blob@);
                encode_utf8_valid_utf8(k);
            }
        }
        match core::str::from_utf8(buf.as_slice()) {
            Ok(s) => Ok(ProviderKey::new(s)),
            Err(_) => Err(BrainError::Custody(Fault::CustodyWrongSession)),
        }
    }
}

/// Custody law: a blob `PlainCustody` encrypts for a session decrypts, for that session, to the
/// very key it was made from.
pub proof fn plain_custody_round_trips(session_id: &str, key: Seq<char>, blob: Seq<u8>, back: Seq<char>)
    requires
        blob == masked(session_pad(session_id), encode_utf8(key)),
        encode_utf8(back) == masked(session_pad(session_id), blob),
    ensures
        back == key,
        exists|k: Seq<char>| encode_utf8(k) == masked(session_pad(session_id), blob),
{
    PlainCustody::mask_is_involutive(session_pad(session_id), encode_utf8(key));
    encode_utf8_decode_utf8(back);
    encode_utf8_decode_utf8(key);
}

/// The standard padded base64 text of a byte sequence.
pub uninterp spec fn b64_encoding_of(bytes: Seq<u8>) -> Seq<char>;

/// What standard padded base64 text decodes to, or `None` when it is not such text.
pub uninterp spec fn b64_decoding_of(text: Seq<char>) -> Option<Seq<u8>>;

/// `base64::DecodeError`, the reason a text is not base64.
#[verifier::external_type_specification]
#[verifier::external_body]
pub struct ExDecodeError(base64::DecodeError);

/// `base64::engine::general_purpose::STANDARD.encode`: the padded standard-alphabet encoding,
/// a function of the bytes alone, which the same engine decodes back to those bytes. The
/// encoder panics when the encoded length overflows `usize`; `requires` rules that out.
#[verifier::external_body]
pub fn blob_to_b64(blob: &[u8]) -> (r: String)
    requires
        blob@.len() <= usize::MAX / 2,
    ensures
        r@ == b64_encoding_of(blob@),
        b64_decoding_of(r@) == Some(blob@),
{
    base64::engine::general_purpose::STANDARD.encode(blob)
}

/// `base64::engine::general_purpose::STANDARD.decode`: the decoded bytes exactly when the text
/// is standard padded base64.
#[verifier::external_body]
fn decode_b64(text: &str) -> (r: Result<Vec<u8>, base64::DecodeError>)
    ensures
        match r {
            Ok(v) => b64_decoding_of(text@) == Some(v@),
            Err(_) => b64_decoding_of(text@) is None,
        },
{
    base64::engine::general_purpose::STANDARD.decode(text)
}

/// Decode a key blob carried as base64 text in a JSON HEAD attribute.
pub fn blob_from_b64(text: &str) -> (r: Result<Vec<u8>, BrainError>)
    ensures
        match r {
            Ok(v) => b64_decoding_of(text@) == Some(v@),
            Err(e) => b64_decoding_of(text@) is None && e == BrainError::Custody(Fault::CustodyBlobNotBase64),
        },
{
    match decode_b64(text) {
        Ok(v) => Ok(v),
        Err(_) => Err(BrainError::Custody(Fault::CustodyBlobNotBase64)),
    }
}

} // verus!
