use cbc::cipher::block_padding::{NoPadding, Pkcs7};
use cbc::cipher::{BlockEncryptMut, KeyIvInit};
use md5::{Digest, Md5};
use otd_core::error::{ConvertError, ErrorCode};
use otd_core::parser::otx::{
    decrypt_otx, initialization_vector, pad_to_block, passphrase, text_of_plain,
};

fn encryptor() -> cbc::Encryptor<rc2::Rc2> {
    let key = Md5::digest(b"%x$Intermac^(zx");
    cbc::Encryptor::<rc2::Rc2>::new_from_slices(&key, b"DeCarneD").expect("key and iv")
}

fn encrypt(plain: &[u8]) -> Vec<u8> {
    encryptor().encrypt_padded_vec_mut::<Pkcs7>(plain)
}

fn encrypt_raw(blocks: &[u8]) -> Vec<u8> {
    encryptor().encrypt_padded_vec_mut::<NoPadding>(blocks)
}

#[test]
fn key_material_is_fixed() {
    assert_eq!(passphrase(), b"%x$Intermac^(zx".to_vec());
    assert_eq!(initialization_vector(), vec![68, 101, 67, 97, 114, 110, 101, 68]);
}

#[test]
fn what_was_encrypted_comes_back() {
    for text in ["", "a", "1234567", "12345678", "[Header]\r\nDimension=mm\r\n[Pattern]\r\nWidth=3000\r\n", "größe=3"] {
        let encrypted = encrypt(text.as_bytes());
        assert_eq!(encrypted.len() % 8, 0);
        assert_ne!(encrypted, text.as_bytes());
        assert_eq!(decrypt_otx(&encrypted).expect("decrypts"), text);
    }
}

#[test]
fn what_is_not_an_otx_file_fails_to_decrypt() {
    // no data, no padding
    let failed = decrypt_otx(&[]).unwrap_err();
    assert_eq!(failed.code(), ErrorCode::DecryptionFailed);
    assert_eq!(failed.code_value(), 300);
    assert_eq!(failed.message(), "OTX decryption failed: Decryption failed: Unpad Error");
    // padding that is none
    for tail in [0u8, 9, 200] {
        let bad = encrypt_raw(&[1, 2, 3, 4, 5, 6, 7, tail]);
        assert!(matches!(decrypt_otx(&bad), Err(ConvertError::DecryptionFailed { .. })));
    }
    let bad = encrypt_raw(&[1, 2, 3, 4, 5, 3, 2, 3]);
    assert!(matches!(decrypt_otx(&bad), Err(ConvertError::DecryptionFailed { .. })));
    // bytes that are no text
    let bad = encrypt(&[0xff, 0xfe, 0x00]);
    let failed = decrypt_otx(&bad).unwrap_err();
    assert_eq!(failed.message(), "OTX decryption failed: Invalid UTF-8 in decrypted content");
}

#[test]
fn short_data_is_filled_up_with_zero_bytes() {
    assert_eq!(pad_to_block(&[]), Vec::<u8>::new());
    assert_eq!(pad_to_block(&[1, 2, 3]), vec![1, 2, 3, 0, 0, 0, 0, 0]);
    assert_eq!(pad_to_block(&[9; 8]), vec![9; 8]);
    assert_eq!(pad_to_block(&[9; 9]).len(), 16);
    assert_eq!(&pad_to_block(&[9; 9])[9..], &[0; 7]);
    // a file cut short within its last block decrypts as the filled-up file does
    let whole = encrypt(b"0123456789abcdef0123");
    let cut = &whole[..whole.len() - 3];
    let mut filled = cut.to_vec();
    filled.extend([0, 0, 0]);
    assert_eq!(decrypt_otx(cut).ok(), decrypt_otx(&filled).ok());
}

#[test]
fn plain_bytes_must_be_text() {
    assert_eq!(text_of_plain(b"X=1".to_vec()).expect("text"), "X=1");
    assert_eq!(text_of_plain("é".as_bytes().to_vec()).expect("text"), "é");
    assert!(text_of_plain(vec![0xc3]).is_err());
    assert!(text_of_plain(vec![0xed, 0xa0, 0x80]).is_err());
}
