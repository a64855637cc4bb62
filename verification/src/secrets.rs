//! Managed provider keys, sealed at rest.

use crate::error::{error_of, outcome, Error, ErrorKind, ErrorView};
use crate::text::{join2, prefix_is_taken_off, strip_prefix, without_prefix};
use vstd::prelude::*;
use vstd::string::StrSliceExecFns;
use vstd::utf8::{
    decode_utf8, encode_utf8, encode_utf8_decode_utf8, encode_utf8_valid_utf8, valid_utf8,
};

verus! {

/// What a sealed key starts with.
pub const PREFIX: &'static str = "mwenc:v1:";

/// The SHA-256 digest of bytes.
pub uninterp spec fn sha256_of(bytes: Seq<u8>) -> Seq<u8>;

/// `Sha256::digest` of the `sha2` crate: the digest of the bytes, of 32 bytes. It
/// is named, not described.
#[verifier::external_body]
fn sha256(bytes: &Vec<u8>) -> (r: Vec<u8>)
    ensures
        r@ == sha256_of(bytes@),
        r@.len() == 32,
{
    <sha2::Sha256 as sha2::Digest>::digest(bytes).to_vec()
}

/// What AES-256-GCM makes of a plaintext under a key and a nonce.
pub uninterp spec fn aes_sealed(key: Seq<u8>, nonce: Seq<u8>, plaintext: Seq<u8>) -> Seq<u8>;

/// What AES-256-GCM finds in a ciphertext under a key and a nonce.
pub uninterp spec fn aes_opened(
    key: Seq<u8>,
    nonce: Seq<u8>,
    ciphertext: Seq<u8>,
) -> Option<Seq<u8>>;

/// How many bytes the cipher takes: its counter has 32 bits, of which one block
/// goes to the tag.
pub open spec fn max_plaintext() -> int {
    0xf_ffff_ffe0
}

/// `Aes256Gcm::new_from_slice` and `encrypt` of the `aes-gcm` crate: the
/// ciphertext with its tag of 16 bytes, from which the same key and nonce give
/// the plaintext back. It is named, not described. A key of 32 bytes and a
/// plaintext within the limit are never refused.
#[verifier::external_body]
fn aes_seal(key: &Vec<u8>, nonce: &Vec<u8>, plaintext: &Vec<u8>) -> (r: Option<Vec<u8>>)
    requires
        key@.len() == 32,
        nonce@.len() == 12,
        plaintext@.len() <= max_plaintext(),
    ensures
        r is Some,
        r->0@ == aes_sealed(key@, nonce@, plaintext@),
        r->0@.len() == plaintext@.len() + 16,
        aes_opened(key@, nonce@, r->0@) == Some(plaintext@),
{
    let cipher = <aes_gcm::Aes256Gcm as aes_gcm::KeyInit>::new_from_slice(key).ok()?;
    let nonce = aes_gcm::Nonce::from_slice(nonce);
    aes_gcm::aead::Aead::encrypt(&cipher, nonce, plaintext.as_slice()).ok()
}

/// `Aes256Gcm::new_from_slice` and `decrypt` of the `aes-gcm` crate: the plaintext
/// of a ciphertext with its tag, where the tag is right. It is named, not
/// described.
#[verifier::external_body]
fn aes_open(key: &Vec<u8>, nonce: &Vec<u8>, ciphertext: &Vec<u8>) -> (r: Option<Vec<u8>>)
    requires
        key@.len() == 32,
        nonce@.len() == 12,
        ciphertext@.len() <= max_plaintext() + 16,
    ensures
        r.deep_view() == aes_opened(key@, nonce@, ciphertext@),
{
    let cipher = <aes_gcm::Aes256Gcm as aes_gcm::KeyInit>::new_from_slice(key).ok()?;
    let nonce = aes_gcm::Nonce::from_slice(nonce);
    aes_gcm::aead::Aead::decrypt(&cipher, nonce, ciphertext.as_slice()).ok()
}

/// `rand::random`: twelve random bytes.
#[verifier::external_body]
fn random_nonce() -> (r: Vec<u8>)
    ensures
        r@.len() == 12,
{
    rand::random::<[u8; 12]>().to_vec()
}

/// The base64 text of bytes.
pub uninterp spec fn base64_text(bytes: Seq<u8>) -> Seq<char>;

/// The bytes that a base64 text denotes, where it is one.
pub uninterp spec fn base64_bytes(text: Seq<char>) -> Option<Seq<u8>>;

/// `encode` of the standard engine of the `base64` crate: the text of the bytes,
/// padded to four characters for each three bytes, from which `decode` gives them
/// back. It is named, not described.
#[verifier::external_body]
fn base64_encode(bytes: &Vec<u8>) -> (r: String)
    requires
        4 * ((bytes@.len() + 2) / 3) <= isize::MAX,
    ensures
        r@ == base64_text(bytes@),
        r@.len() == 4 * ((bytes@.len() + 2) / 3),
        base64_bytes(r@) == Some(bytes@),
{
    base64::Engine::encode(&base64::engine::general_purpose::STANDARD, bytes)
}

/// `decode` of the standard engine of the `base64` crate: the bytes that the text
/// denotes, where it is well-formed. They are named, not described.
#[verifier::external_body]
fn base64_decode(text: &str) -> (r: Option<Vec<u8>>)
    ensures
        r.deep_view() == base64_bytes(text@),
{
    base64::Engine::decode(&base64::engine::general_purpose::STANDARD, text).ok()
}

/// `String::from_utf8`: the text whose UTF-8 the bytes are, where they are that
/// of one.
#[verifier::external_body]
fn text_from_utf8(bytes: Vec<u8>) -> (r: Option<String>)
    ensures
        match r {
            Some(text) => encode_utf8(text@) == bytes@,
            None => !valid_utf8(bytes@),
        },
{
    String::from_utf8(bytes).ok()
}

/// The key that a secret stands for.
pub open spec fn key_of(secret: Seq<char>) -> Seq<u8> {
    sha256_of(encode_utf8(secret))
}

fn derive_key(secret: &str) -> (key: Vec<u8>)
    ensures
        key@ == key_of(secret@),
        key@.len() == 32,
{
    let bytes = secret.as_bytes_vec();
    sha256(&bytes)
}

/// Whether a text of so many bytes can be sealed: the cipher takes so many, and
/// what they are sealed as fits into a string.
pub open spec fn sealable(length: nat) -> bool {
    length <= max_plaintext() && sealed_length(length) <= isize::MAX
}

/// A plaintext sealed under a secret and a nonce: the nonce and the ciphertext,
/// in base64, behind the prefix.
pub open spec fn sealed_text(
    plaintext: Seq<char>,
    secret: Seq<char>,
    nonce: Seq<u8>,
) -> Seq<char> {
    "mwenc:v1:"@ + base64_text(
        nonce + aes_sealed(key_of(secret), nonce, encode_utf8(plaintext)),
    )
}

/// The length of what a text of so many bytes is sealed as.
pub open spec fn sealed_length(length: nat) -> nat {
    9 + 4 * ((length + 12 + 16 + 2) / 3)
}

proof fn lemma_utf8_is_no_shorter(text: Seq<char>)
    ensures
        encode_utf8(text).len() >= text.len(),
    decreases text.len(),
{
    if text.len() > 0 {
        lemma_utf8_is_no_shorter(text.drop_first());
    }
}

/// The refusal of a ciphertext that is none.
pub open spec fn not_sealed() -> ErrorView {
    error_of(ErrorKind::InternalError, "Invalid managed key ciphertext"@)
}

/// The text of an opened ciphertext.
pub open spec fn opened_text(opened: Option<Seq<u8>>) -> Result<Seq<char>, ErrorView> {
    match opened {
        None => Err(error_of(ErrorKind::InternalError, "Managed key decryption failed"@)),
        Some(bytes) => if valid_utf8(bytes) {
            Ok(decode_utf8(bytes))
        } else {
            Err(error_of(ErrorKind::InternalError, "Managed key plaintext is not UTF-8"@))
        },
    }
}

/// The nonce and the ciphertext in what was decoded.
pub open spec fn sealed_parts(decoded: Option<Seq<u8>>) -> Result<(Seq<u8>, Seq<u8>), ErrorView> {
    match decoded {
        None => Err(not_sealed()),
        Some(blob) => if blob.len() < 13 {
            Err(not_sealed())
        } else {
            Ok((blob.take(12), blob.skip(12)))
        },
    }
}

/// What is sealed in a text, under a secret.
pub open spec fn unsealed(ciphertext: Seq<char>, secret: Seq<char>) -> Result<
    Seq<char>,
    ErrorView,
> {
    match without_prefix(ciphertext, "mwenc:v1:"@) {
        None => Err(not_sealed()),
        Some(encoded) => match sealed_parts(base64_bytes(encoded)) {
            Err(error) => Err(error),
            Ok((nonce, payload)) => opened_text(
                if payload.len() > max_plaintext() + 16 {
                    None
                } else {
                    aes_opened(key_of(secret), nonce, payload)
                },
            ),
        },
    }
}

/// The nonce and the ciphertext in what was decoded.
pub fn split_sealed(decoded: Option<Vec<u8>>) -> (r: Result<(Vec<u8>, Vec<u8>), Error>)
    ensures
        match r {
            Ok(parts) => sealed_parts(decoded.deep_view()) == Ok::<
                (Seq<u8>, Seq<u8>),
                ErrorView,
            >((parts.0@, parts.1@)) && parts.0@.len() == 12,
            Err(error) => sealed_parts(decoded.deep_view()) == Err::<
                (Seq<u8>, Seq<u8>),
                ErrorView,
            >(error.deep_view()),
        },
{
    let blob = match decoded {
        Some(blob) => blob,
        None => {
            return Err(Error::new(ErrorKind::InternalError, "Invalid managed key ciphertext"));
        },
    };
    assert(blob.deep_view() =~= blob@);
    if blob.len() < 13 {
        return Err(Error::new(ErrorKind::InternalError, "Invalid managed key ciphertext"));
    }
    let mut nonce: Vec<u8> = Vec::new();
    let mut payload: Vec<u8> = Vec::new();
    let mut i: usize = 0;
    while i < blob.len()
        invariant
            i <= blob.len(),
            13 <= blob.len(),
            nonce@ =~= blob@.take(if i < 12 {
                i as int
            } else {
                12
            }),
            payload@ =~= blob@.subrange(12, if i < 12 {
                12
            } else {
                i as int
            }),
        decreases blob.len() - i,
    {
        if i < 12 {
            nonce.push(blob[i]);
        } else {
            payload.push(blob[i]);
        }
        i = i + 1;
    }
    assert(payload@ =~= blob@.skip(12));
    Ok((nonce, payload))
}

/// The text of an opened ciphertext.
pub fn text_of_opened(opened: Option<Vec<u8>>) -> (r: Result<String, Error>)
    ensures
        outcome(r) == opened_text(opened.deep_view()),
{
    let bytes = match opened {
        Some(bytes) => bytes,
        None => {
            return Err(Error::new(ErrorKind::InternalError, "Managed key decryption failed"));
        },
    };
    assert(bytes.deep_view() =~= bytes@);
    let ghost shown = bytes@;
    match text_from_utf8(bytes) {
        Some(text) => {
            proof {
                encode_utf8_decode_utf8(text@);
                encode_utf8_valid_utf8(text@);
            }
            Ok(text)
        },
        None => Err(Error::new(ErrorKind::InternalError, "Managed key plaintext is not UTF-8")),
    }
}

/// Seals a plaintext under a secret and a nonce of twelve bytes.
pub fn encrypt_with_nonce(plaintext: &str, secret: &str, nonce: Vec<u8>) -> (r: Result<
    String,
    Error,
>)
    requires
        nonce@.len() == 12,
    ensures
        match r {
            Ok(text) => {
                &&& sealable(encode_utf8(plaintext@).len())
                &&& text@ == sealed_text(plaintext@, secret@, nonce@)
                &&& text@.len() == sealed_length(encode_utf8(plaintext@).len())
                &&& text@ != plaintext@
                &&& unsealed(text@, secret@) == Ok::<Seq<char>, ErrorView>(plaintext@)
            },
            Err(error) => {
                &&& !sealable(encode_utf8(plaintext@).len())
                &&& error.deep_view() == error_of(
                    ErrorKind::InternalError,
                    "Managed key encryption failed"@,
                )
            },
        },
{
    let bytes = plaintext.as_bytes_vec();
    let length: u64 = bytes.len() as u64;
    if length > 0xf_ffff_ffe0 || 9 + 4 * ((length + 30) / 3) > isize::MAX as u64 {
        return Err(Error::new(ErrorKind::InternalError, "Managed key encryption failed"));
    }
    let key = derive_key(secret);
    let ciphertext = match aes_seal(&key, &nonce, &bytes) {
        Some(ciphertext) => ciphertext,
        None => {
            return Err(Error::new(ErrorKind::InternalError, "Managed key encryption failed"));
        },
    };
    let mut blob = nonce;
    let mut payload = ciphertext;
    let ghost front = blob@;
    let ghost back = payload@;
    blob.append(&mut payload);
    assert(blob@ =~= front + back);
    let encoded = base64_encode(&blob);
    let text = join2(PREFIX, encoded.as_str());
    proof {
        assert(text@ =~= "mwenc:v1:"@ + encoded@);
        reveal_strlit("mwenc:v1:");
        assert("mwenc:v1:"@.len() == 9);
        lemma_utf8_is_no_shorter(plaintext@);
        assert(without_prefix(text@, "mwenc:v1:"@) == Some(encoded@)) by {
            assert(text@.take("mwenc:v1:"@.len() as int) =~= "mwenc:v1:"@);
            assert(text@.skip("mwenc:v1:"@.len() as int) =~= encoded@);
        }
        assert(blob@.take(12) =~= front);
        assert(blob@.skip(12) =~= back);
        encode_utf8_decode_utf8(plaintext@);
        encode_utf8_valid_utf8(plaintext@);
    }
    Ok(text)
}

/// Seals a plaintext under a secret; [`decrypt_managed_key`] gives it back under
/// the same one.
pub fn encrypt_managed_key(plaintext: &str, secret: &str) -> (r: Result<String, Error>)
    ensures
        match r {
            Ok(text) => {
                &&& sealable(encode_utf8(plaintext@).len())
                &&& unsealed(text@, secret@) == Ok::<Seq<char>, ErrorView>(plaintext@)
                &&& is_sealed(text@)
                &&& text@ != plaintext@
                &&& text@.len() == sealed_length(encode_utf8(plaintext@).len())
                &&& exists|nonce: Seq<u8>|
                    nonce.len() == 12 && text@ == #[trigger] sealed_text(
                        plaintext@,
                        secret@,
                        nonce,
                    )
            },
            Err(error) => {
                &&& !sealable(encode_utf8(plaintext@).len())
                &&& error.deep_view() == error_of(
                    ErrorKind::InternalError,
                    "Managed key encryption failed"@,
                )
            },
        },
{
    let nonce = random_nonce();
    let ghost shown = nonce@;
    let r = encrypt_with_nonce(plaintext, secret, nonce);
    assert(r matches Ok(text) ==> text@ == sealed_text(plaintext@, secret@, shown));
    proof {
        sealed_key_is_marked(plaintext@, secret@, shown);
    }
    r
}

/// Opens a sealed key under a secret.
pub fn decrypt_managed_key(ciphertext: &str, secret: &str) -> (r: Result<String, Error>)
    ensures
        outcome(r) == unsealed(ciphertext@, secret@),
{
    let encoded = match strip_prefix(ciphertext, PREFIX) {
        Some(encoded) => encoded,
        None => {
            return Err(Error::new(ErrorKind::InternalError, "Invalid managed key ciphertext"));
        },
    };
    let (nonce, payload) = match split_sealed(base64_decode(encoded)) {
        Ok(parts) => parts,
        Err(error) => {
            return Err(error);
        },
    };
    let length: u64 = payload.len() as u64;
    if length > 0xf_ffff_fff0 {
        return text_of_opened(None);
    }
    let key = derive_key(secret);
    text_of_opened(aes_open(&key, &nonce, &payload))
}

/// Whether a text is sealed.
pub open spec fn is_sealed(text: Seq<char>) -> bool {
    without_prefix(text, "mwenc:v1:"@) is Some
}

/// What was sealed is marked as sealed.
pub proof fn sealed_key_is_marked(plaintext: Seq<char>, secret: Seq<char>, nonce: Seq<u8>)
    ensures
        is_sealed(sealed_text(plaintext, secret, nonce)),
{
    let text = sealed_text(plaintext, secret, nonce);
    assert(text.take("mwenc:v1:"@.len() as int) =~= "mwenc:v1:"@);
}

/// A text is sealed just where the mark stands in front of it, and only such a text is
/// ever opened.
pub proof fn only_marked_texts_are_opened(text: Seq<char>, rest: Seq<char>, secret: Seq<char>)
    ensures
        is_sealed("mwenc:v1:"@ + rest),
        is_sealed(text) ==> exists|rest: Seq<char>| text == "mwenc:v1:"@ + rest,
        !is_sealed(text) ==> unsealed(text, secret) is Err,
{
    let mark = "mwenc:v1:"@;
    prefix_is_taken_off(mark + rest, mark, rest);
    if is_sealed(text) {
        let behind = without_prefix(text, mark)->0;
        prefix_is_taken_off(text, mark, behind);
        assert(text == mark + behind);
    }
}

/// What is decoded is taken apart after the first twelve bytes, with at least one left.
pub proof fn nonce_stands_in_front(blob: Seq<u8>)
    ensures
        sealed_parts(None) is Err,
        sealed_parts(Some(blob)) is Ok <==> blob.len() > 12,
        sealed_parts(Some(blob)) matches Ok((nonce, payload)) ==> nonce.len() == 12 && nonce
            + payload == blob,
{
    if blob.len() > 12 {
        assert(blob.take(12) + blob.skip(12) =~= blob);
    }
}

/// A text that was sealed under a secret opens under it as that text, provided that the
/// encoding and the cipher give back what they were given.
pub proof fn sealed_text_opens_again(plaintext: Seq<char>, secret: Seq<char>, nonce: Seq<u8>)
    ensures
        ({
            let sealed = aes_sealed(key_of(secret), nonce, encode_utf8(plaintext));
            &&& nonce.len() == 12 && 0 < sealed.len() <= max_plaintext() + 16
            &&& base64_bytes(base64_text(nonce + sealed)) == Some(nonce + sealed)
            &&& aes_opened(key_of(secret), nonce, sealed) == Some(encode_utf8(plaintext))
        }) ==> unsealed(sealed_text(plaintext, secret, nonce), secret) == Ok::<
            Seq<char>,
            ErrorView,
        >(plaintext),
{
    let mark = "mwenc:v1:"@;
    let sealed = aes_sealed(key_of(secret), nonce, encode_utf8(plaintext));
    let encoded = base64_text(nonce + sealed);
    prefix_is_taken_off(mark + encoded, mark, encoded);
    encode_utf8_valid_utf8(plaintext);
    encode_utf8_decode_utf8(plaintext);
    if nonce.len() == 12 {
        assert((nonce + sealed).take(12) =~= nonce);
        assert((nonce + sealed).skip(12) =~= sealed);
    }
}

/// What does not open, or opens as no text, is an error; a text that opens is the one
/// that its bytes encode.
pub proof fn opened_bytes_are_read_as_text(text: Seq<char>, bytes: Seq<u8>)
    ensures
        opened_text(None) is Err,
        opened_text(Some(encode_utf8(text))) == Ok::<Seq<char>, ErrorView>(text),
        opened_text(Some(bytes)) is Ok <==> valid_utf8(bytes),
{
    encode_utf8_valid_utf8(text);
    encode_utf8_decode_utf8(text);
}

/// What is sealed is the mark with four characters for each three bytes begun of nonce,
/// ciphertext and tag, and it can be sealed as long as the cipher takes it and a string
/// holds it.
pub proof fn sealed_length_counts_all_parts(length: nat)
    ensures
        (sealed_length(length) - 9) % 4 == 0,
        length + 28 <= 3 * ((sealed_length(length) - 9) / 4) <= length + 30,
        sealable(length) ==> length <= 0xf_ffff_ffe0 && sealed_length(length) <= isize::MAX,
        length <= 0xf_ffff_ffe0 && sealed_length(length) <= isize::MAX ==> sealable(length),
{
}

} // verus!
