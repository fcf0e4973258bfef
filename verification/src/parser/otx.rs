//! Decryption of OTX files: OTD text under RC2 in CBC mode.

use crate::error::ConvertError;
use cipher::block_padding::{Pkcs7, UnpadError};
use cipher::{BlockDecryptMut, KeyIvInit};
use md5::Digest;
use vstd::prelude::*;
use vstd::string::StringExecFns;
use vstd::utf8::{decode_utf8, valid_utf8};

verus! {

/// Length of a cipher block.
pub const BLOCK_SIZE: usize = 8;

/// The MD5 digest of a message.
pub uninterp spec fn md5_digest(data: Seq<u8>) -> Seq<u8>;

/// What RC2 in CBC mode decrypts `data` to under `key` and `iv`, block by
/// block, padding included.
pub uninterp spec fn rc2_cbc_blocks(key: Seq<u8>, iv: Seq<u8>, data: Seq<u8>) -> Seq<u8>;

/// `block_padding::UnpadError`: the error of taking padding off, which
/// holds nothing.
#[verifier::external_type_specification]
#[verifier::external_body]
pub struct ExUnpadError(UnpadError);

/// `Md5::digest`: the MD5 digest of `data`, which has 16 bytes.
#[verifier::external_body]
fn md5(data: &[u8]) -> (digest: Vec<u8>)
    ensures
        digest@ == md5_digest(data@),
        digest@.len() == 16,
{
    md5::Md5::digest(data).to_vec()
}

/// `cbc::Decryptor::<Rc2>::new_from_slices`, then `decrypt_padded_mut` with
/// PKCS#7 padding, on a copy of `data`. A key of 1 to 128 bytes and an IV
/// of 8 bytes are accepted, the key at its full effective length. The data
/// is decrypted block by block and the padding taken off; the call fails
/// where the data is empty or not whole blocks, or where the padding is
/// malformed.
#[verifier::external_body]
fn rc2_cbc_decrypt(key: &[u8], iv: &[u8], data: &[u8]) -> (r: Result<Vec<u8>, UnpadError>)
    requires
        1 <= key@.len() <= 128,
        iv@.len() == 8,
    ensures
        match r {
            Ok(plain) => pkcs7_unpadded(rc2_cbc_blocks(key@, iv@, data@)) == Some(plain@),
            Err(_) => pkcs7_unpadded(rc2_cbc_blocks(key@, iv@, data@)) is None,
        },
{
    let mut buffer = data.to_vec();
    let decryptor = cbc::Decryptor::<rc2::Rc2>::new_from_slices(key, iv).unwrap();
    decryptor.decrypt_padded_mut::<Pkcs7>(&mut buffer).map(|plain| plain.to_vec())
}

/// `String::from_utf8`: the text that `bytes` encode, where they are valid
/// UTF-8; nothing where they are not.
#[verifier::external_body]
fn utf8_text(bytes: Vec<u8>) -> (r: Option<String>)
    ensures
        match r {
            Some(s) => valid_utf8(bytes@) && s@ == decode_utf8(bytes@),
            None => !valid_utf8(bytes@),
        },
{
    String::from_utf8(bytes).ok()
}

/// The passphrase from which the key of every OTX file is derived.
pub open spec fn otx_passphrase() -> Seq<u8> {
    seq![37u8, 120, 36, 73, 110, 116, 101, 114, 109, 97, 99, 94, 40, 122, 120]
}

/// The initialization vector of every OTX file.
pub open spec fn otx_iv() -> Seq<u8> {
    seq![68u8, 101, 67, 97, 114, 110, 101, 68]
}

/// `data` with as many zero bytes behind it as it takes to fill the last
/// block.
pub open spec fn zero_padded(data: Seq<u8>) -> Seq<u8> {
    if data.len() % 8 == 0 {
        data
    } else {
        data + Seq::new((8 - data.len() % 8) as nat, |i: int| 0u8)
    }
}

/// `plain` without its PKCS#7 padding: the last byte says how many bytes
/// of padding there are, from 1 to 8, and each of them holds that number.
/// Empty data, data that is not whole blocks and data with other padding
/// have no such form.
pub open spec fn pkcs7_unpadded(plain: Seq<u8>) -> Option<Seq<u8>> {
    if plain.len() == 0 || plain.len() % 8 != 0 {
        None
    } else {
        let n = plain.last() as int;
        if 1 <= n <= 8 && (forall|i: int| plain.len() - n <= i < plain.len() ==> plain[i] == n) {
            Some(plain.take(plain.len() - n))
        } else {
            None
        }
    }
}

/// The bytes that an OTX file decrypts to.
pub open spec fn otx_plain(encrypted: Seq<u8>) -> Option<Seq<u8>> {
    pkcs7_unpadded(rc2_cbc_blocks(md5_digest(otx_passphrase()), otx_iv(), zero_padded(encrypted)))
}

/// The text that decrypted bytes encode.
pub open spec fn plain_text(plain: Seq<u8>) -> Option<Seq<char>> {
    if valid_utf8(plain) {
        Some(decode_utf8(plain))
    } else {
        None
    }
}

/// The text of an OTX file.
pub open spec fn otx_text(encrypted: Seq<u8>) -> Option<Seq<char>> {
    match otx_plain(encrypted) {
        Some(plain) => plain_text(plain),
        None => None,
    }
}

/// The passphrase from which the key of every OTX file is derived.
pub fn passphrase() -> (p: Vec<u8>)
    ensures
        p@ == otx_passphrase(),
{
    let p: Vec<u8> = vec![37u8, 120, 36, 73, 110, 116, 101, 114, 109, 97, 99, 94, 40, 122, 120];
    assert(p@ =~= otx_passphrase());
    p
}

/// The initialization vector of every OTX file.
pub fn initialization_vector() -> (iv: Vec<u8>)
    ensures
        iv@ == otx_iv(),
{
    let iv: Vec<u8> = vec![68u8, 101, 67, 97, 114, 110, 101, 68];
    assert(iv@ =~= otx_iv());
    iv
}

/// A copy of `data`, filled up with zero bytes to whole blocks.
pub fn pad_to_block(data: &[u8]) -> (padded: Vec<u8>)
    ensures
        padded@ == zero_padded(data@),
        padded@.len() % 8 == 0,
{
    let mut padded: Vec<u8> = Vec::new();
    let mut i: usize = 0;
    while i < data.len()
        invariant
            i <= data.len(),
            padded@ == data@.take(i as int),
        decreases data.len() - i,
    {
        padded.push(data[i]);
        i += 1;
        assert(padded@ =~= data@.take(i as int));
    }
    assert(data@.take(data.len() as int) =~= data@);
    let over = data.len() % BLOCK_SIZE;
    if over != 0 {
        let fill = BLOCK_SIZE - over;
        let mut k: usize = 0;
        while k < fill
            invariant
                k <= fill,
                fill == 8 - data@.len() % 8,
                padded@ == data@ + Seq::new(k as nat, |i: int| 0u8),
            decreases fill - k,
        {
            padded.push(0u8);
            k += 1;
            assert(padded@ =~= data@ + Seq::new(k as nat, |i: int| 0u8));
        }
    } else {
        assert(padded@ =~= zero_padded(data@));
    }
    padded
}

/// The text that decrypted bytes encode. Bytes that are not valid UTF-8
/// are a failed decryption.
pub fn text_of_plain(plain: Vec<u8>) -> (r: Result<String, ConvertError>)
    ensures
        match r {
            Ok(text) => plain_text(plain@) == Some(text@),
            Err(e) => plain_text(plain@) is None && e is DecryptionFailed
                && e->DecryptionFailed_message@ == "Invalid UTF-8 in decrypted content"@,
        },
{
    match utf8_text(plain) {
        Some(text) => Ok(text),
        None => Err(
            ConvertError::DecryptionFailed {
                message: String::from_str("Invalid UTF-8 in decrypted content"),
            },
        ),
    }
}

/// Decrypts an OTX file: RC2 in CBC mode, the key being the MD5 digest of
/// the fixed passphrase, under the fixed initialization vector, with
/// PKCS#7 padding. Data that is not whole blocks is filled up with zero
/// bytes before. Whatever goes wrong is a failed decryption.
pub fn decrypt_otx(encrypted: &[u8]) -> (r: Result<String, ConvertError>)
    ensures
        match r {
            Ok(text) => otx_text(encrypted@) == Some(text@),
            Err(e) => otx_text(encrypted@) is None && e is DecryptionFailed
                && e->DecryptionFailed_message@ == if otx_plain(encrypted@) is None {
                "Decryption failed: Unpad Error"@
            } else {
                "Invalid UTF-8 in decrypted content"@
            },
        },
{
    let key = md5(passphrase().as_slice());
    let iv = initialization_vector();
    let buffer = pad_to_block(encrypted);
    match rc2_cbc_decrypt(key.as_slice(), iv.as_slice(), buffer.as_slice()) {
        Ok(plain) => text_of_plain(plain),
        Err(_) => Err(
            ConvertError::DecryptionFailed {
                message: String::from_str("Decryption failed: Unpad Error"),
            },
        ),
    }
}

} // verus!
