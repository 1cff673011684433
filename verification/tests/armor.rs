use chacha20poly1305::aead::{Aead, NewAead};
use cmd_queue::text_crypt::cli::{
    check_contents, decrypt_block, decrypt_contents, decrypt_file, encrypt_block,
    encrypt_contents, encrypt_file, encrypt_file_with, generate_nonces, is_hidden_or_binary,
    CheckOutcome, DecryptFault, EncryptFault,
};
use cmd_queue::text_crypt::crypto::{
    decrypt, encrypt, encrypt_with_nonce, generate_random_nonce, is_key, CryptoDecryptError,
    CryptoEncryptError, ALGORITHM, KEY_LEN, NONCE_LEN,
};
use cmd_queue::text_crypt::error::{EncryptedCryptEncodingError, ParseError};
use cmd_queue::text_crypt::parse::{Block, CryptFile, EncryptedCryptBlock};

const PASSWORD: &str = "0123456789abcdef0123456789abcdef";
const OTHER_PASSWORD: &str = "fedcba9876543210fedcba9876543210";

#[test]
fn test_parsing_encrypted_crypt_block() {
    let block = EncryptedCryptBlock {
        algorithm: "test_algo".to_string(),
        nonce: b"nonce".to_vec(),
        ciphertext: b"this is some good ciphertext".to_vec(),
    };
    let armored = block.to_ascii_armor().unwrap();

    let parsed = EncryptedCryptBlock::from_str(&armored).unwrap();

    assert_eq!(parsed, block);
}

#[test]
fn test_from_str_unencrypted() {
    let contents = r#"hello worldBEGIN CRYPThelloworldencryptedEND CRYPTBEGIN CRYPTthisis a test\n\nEND CRYPT
"#;
    let parsed = CryptFile::from_str(contents).unwrap();
    assert_eq!(
        parsed.blocks,
        vec![
            Block::Plaintext("hello world".to_string()),
            Block::UnencryptedCryptBlock("helloworldencrypted".to_string()),
            Block::Plaintext(String::new()),
            Block::UnencryptedCryptBlock("thisis a test\\n\\n".to_string()),
        ]
    );
}

#[test]
fn armor_stands_between_the_markers_in_base64() {
    let block = EncryptedCryptBlock { algorithm: "a".to_string(), nonce: vec![1], ciphertext: vec![2, 3] };
    let armored = block.to_ascii_armor().unwrap();
    assert_eq!(armored, "BEGIN CRYPT..k6FhkQGSAgMEND CRYPT");
}

#[test]
fn an_armored_block_is_read_without_its_markers_too() {
    let block = EncryptedCryptBlock { algorithm: "a".to_string(), nonce: vec![1], ciphertext: vec![2, 3] };
    assert_eq!(EncryptedCryptBlock::from_str("k6FhkQGSAgM"), Ok(block.clone()));
    assert_eq!(EncryptedCryptBlock::from_str("begin crypt..k6FhkQGSAgMEND CRYPT"), Ok(block));
}

#[test]
fn an_armored_block_that_is_no_base64_or_no_pack_is_refused() {
    assert_eq!(EncryptedCryptBlock::from_str("BEGIN CRYPT..!!!!END CRYPT"), Err(ParseError::Base64Decode));
    assert_eq!(EncryptedCryptBlock::from_str("AAAA"), Err(ParseError::MessagePackDecode));
    assert_eq!(EncryptedCryptBlock::from_str(""), Err(ParseError::MessagePackDecode));
    assert_eq!(EncryptedCryptBlock::from_str("x"), Err(ParseError::Base64Decode));
}

#[test]
fn a_crypt_file_is_known_by_its_begin_marker() {
    assert!(CryptFile::is_crypt_file("BEGIN CRYPT"));
    assert!(CryptFile::is_crypt_file("some text\n---begin   crypt---\nmore"));
    assert!(CryptFile::is_crypt_file("Begin-Crypt"));
    assert!(CryptFile::is_crypt_file("xBEGINCRYPTx"));
    assert!(!CryptFile::is_crypt_file("BEGIN the CRYPT"));
    assert!(!CryptFile::is_crypt_file("END CRYPT"));
    assert!(!CryptFile::is_crypt_file(""));
}

#[test]
fn from_str_reads_plain_open_and_encrypted_blocks() {
    let block = EncryptedCryptBlock { algorithm: "a".to_string(), nonce: vec![1], ciphertext: vec![2, 3] };
    let contents = "introBEGIN CRYPT \n secret \nEND CRYPT middle BEGIN CRYPT..k6FhkQGSAgMEND CRYPT tail";
    let file = CryptFile::from_str(contents).unwrap();
    assert_eq!(
        file.blocks,
        vec![
            Block::Plaintext("intro".to_string()),
            Block::UnencryptedCryptBlock("secret".to_string()),
            Block::Plaintext(" middle ".to_string()),
            Block::EncryptedCryptBlock(block),
        ]
    );
    assert!(file.has_unencrypted_crypt_blocks());
    assert!(!file.blocks[0].is_encrypted());
    assert!(!file.blocks[1].is_encrypted());
    assert!(file.blocks[3].is_encrypted());
}

#[test]
fn from_str_of_a_text_without_markers_has_no_blocks() {
    assert_eq!(CryptFile::from_str("just text").unwrap().blocks, vec![]);
    assert_eq!(CryptFile::from_str("").unwrap().blocks, vec![]);
}

#[test]
fn from_str_refuses_markers_that_do_not_pair() {
    assert_eq!(CryptFile::from_str("BEGIN CRYPT open"), Err(ParseError::MismatchNumStartEndCryptBlocks));
    assert_eq!(CryptFile::from_str("closed END CRYPT"), Err(ParseError::MismatchNumStartEndCryptBlocks));
    assert_eq!(CryptFile::from_str("END CRYPT then BEGIN CRYPT"), Err(ParseError::EndBeforeBegin(0)));
    assert_eq!(
        CryptFile::from_str("BEGIN CRYPT a BEGIN CRYPT b END CRYPT c END CRYPT"),
        Err(ParseError::BeginBeforeEnd(0))
    );
    assert_eq!(
        CryptFile::from_str("BEGIN CRYPT..????END CRYPT"),
        Err(ParseError::Base64Decode)
    );
    assert_eq!(
        CryptFile::from_str("BEGIN CRYPT..AAAAEND CRYPT"),
        Err(ParseError::MessagePackDecode)
    );
}

#[test]
fn an_armored_file_is_written_as_it_is_read() {
    let contents = "introBEGIN CRYPT\nsecret\nEND CRYPT middle BEGIN CRYPT..k6FhkQGSAgMEND CRYPT";
    let file = CryptFile::from_str(contents).unwrap();
    assert_eq!(file.render(), Ok(contents.to_string()));
    assert_eq!(file.blocks[1].render(), Ok("BEGIN CRYPT\nsecret\nEND CRYPT".to_string()));
    assert_eq!(CryptFile { blocks: vec![] }.render(), Ok(String::new()));
    assert_eq!(EncryptedCryptEncodingError::MessagePackEncode, EncryptedCryptEncodingError::MessagePackEncode);
}

#[test]
fn a_password_of_thirty_two_bytes_is_a_key() {
    assert_eq!(KEY_LEN, 32);
    assert_eq!(NONCE_LEN, 12);
    assert!(is_key(PASSWORD));
    assert!(!is_key("short"));
    assert!(!is_key(""));
    assert!(is_key("éééééééééééééééé"));
    assert!(!is_key("éééééééééééééééééééééééééééééééé"));
    assert!(!is_key("0123456789abcdef0123456789abcdef0"));
}

#[test]
fn a_random_nonce_has_twelve_bytes_and_changes() {
    let a = generate_random_nonce();
    let b = generate_random_nonce();
    assert_eq!(a.len(), 12);
    assert_eq!(b.len(), 12);
    assert_ne!(a, b);
    let many = generate_nonces(5);
    assert_eq!(many.len(), 5);
    assert!(many.iter().all(|n| n.len() == 12));
    assert!(generate_nonces(0).is_empty());
}

#[test]
fn what_is_encrypted_decrypts_to_the_same_text() {
    let block = encrypt(PASSWORD, "the secret text, with ünïcödé").unwrap();
    assert_eq!(block.algorithm, ALGORITHM);
    assert_eq!(block.algorithm, "ChaCha20Poly1305");
    assert_eq!(block.nonce.len(), 12);
    assert_eq!(block.ciphertext.len(), "the secret text, with ünïcödé".len() + 16);
    assert_ne!(&block.ciphertext[..10], &b"the secret"[..]);
    assert_eq!(decrypt(PASSWORD, &block), Ok("the secret text, with ünïcödé".to_string()));
}

#[test]
fn encryption_under_a_given_nonce_is_fixed() {
    let nonce = vec![7u8; 12];
    let a = encrypt_with_nonce(PASSWORD, "abc", nonce.clone()).unwrap();
    let b = encrypt_with_nonce(PASSWORD, "abc", nonce.clone()).unwrap();
    assert_eq!(a, b);
    assert_eq!(a.nonce, nonce);
    let c = encrypt_with_nonce(PASSWORD, "abc", vec![8u8; 12]).unwrap();
    assert_ne!(a.ciphertext, c.ciphertext);
    let d = encrypt_with_nonce(OTHER_PASSWORD, "abc", nonce).unwrap();
    assert_ne!(a.ciphertext, d.ciphertext);
    assert_eq!(CryptoEncryptError::Encryption.message(), "Failed encryption");
}

#[test]
fn decryption_fails_under_another_password_or_on_changed_bytes() {
    let block = encrypt(PASSWORD, "secret").unwrap();
    assert_eq!(decrypt(OTHER_PASSWORD, &block), Err(CryptoDecryptError::Decryption));
    let mut changed = block.clone();
    changed.ciphertext[0] ^= 1;
    assert_eq!(decrypt(PASSWORD, &changed), Err(CryptoDecryptError::Decryption));
    let mut short = block.clone();
    short.ciphertext.truncate(3);
    assert_eq!(decrypt(PASSWORD, &short), Err(CryptoDecryptError::Decryption));
    assert_eq!(CryptoDecryptError::Decryption.message(), "Failed decryption");
    assert_eq!(
        CryptoDecryptError::Utf8FromBytes.message(),
        "Failed parsing utf-8 from decrypted bytes"
    );
}

#[test]
fn hidden_and_binary_entries_are_passed_over() {
    assert!(is_hidden_or_binary(".git"));
    assert!(is_hidden_or_binary(".hidden.txt"));
    assert!(is_hidden_or_binary("secret.gpg"));
    assert!(is_hidden_or_binary(".gpg"));
    assert!(!is_hidden_or_binary("."));
    assert!(!is_hidden_or_binary(".."));
    assert!(is_hidden_or_binary("..."));
    assert!(!is_hidden_or_binary("notes.txt"));
    assert!(!is_hidden_or_binary("gpg"));
    assert!(!is_hidden_or_binary("a.gpg.txt"));
    assert!(!is_hidden_or_binary(""));
}

#[test]
fn a_check_finds_open_blocks() {
    assert_eq!(check_contents("no blocks here"), CheckOutcome::NotCryptFile);
    assert_eq!(check_contents("BEGIN CRYPT open END CRYPT"), CheckOutcome::Unencrypted);
    assert_eq!(check_contents("BEGIN CRYPT..k6FhkQGSAgMEND CRYPT"), CheckOutcome::Encrypted);
    assert_eq!(
        check_contents("BEGIN CRYPT..k6FhkQGSAgMEND CRYPT and BEGIN CRYPT x END CRYPT"),
        CheckOutcome::Unencrypted
    );
    assert_eq!(
        check_contents("BEGIN CRYPT never ends"),
        CheckOutcome::Unparsable(ParseError::MismatchNumStartEndCryptBlocks)
    );
    assert_eq!(check_contents("---begin crypt---"), CheckOutcome::Encrypted);
}

#[test]
fn a_file_is_encrypted_and_decrypted_block_by_block() {
    let contents = "introBEGIN CRYPT secret one END CRYPT middle BEGIN CRYPT\nsecret two\nEND CRYPT";
    let file = CryptFile::from_str(contents).unwrap();
    let encrypted = encrypt_file(PASSWORD, &file).unwrap();
    assert_eq!(encrypted.blocks.len(), 4);
    assert_eq!(encrypted.blocks[0], file.blocks[0]);
    assert_eq!(encrypted.blocks[2], file.blocks[2]);
    assert!(encrypted.blocks[1].is_encrypted());
    assert!(encrypted.blocks[3].is_encrypted());
    assert!(!encrypted.has_unencrypted_crypt_blocks());
    let decrypted = decrypt_file(PASSWORD, &encrypted).unwrap();
    assert_eq!(decrypted, file);
    assert_eq!(encrypt_file(PASSWORD, &encrypted), Ok(encrypted.clone()));
    assert_eq!(decrypt_file(PASSWORD, &file), Ok(file));
    assert_eq!(
        decrypt_file(OTHER_PASSWORD, &encrypted),
        Err(DecryptFault::Crypto(CryptoDecryptError::Decryption))
    );
}

#[test]
fn a_file_is_encrypted_under_the_nonces_given() {
    let file = CryptFile::from_str("aBEGIN CRYPT one END CRYPTbBEGIN CRYPT two END CRYPT").unwrap();
    let nonces = vec![vec![1u8; 12], vec![2u8; 12], vec![3u8; 12], vec![4u8; 12]];
    let encrypted = encrypt_file_with(PASSWORD, nonces.clone(), &file).unwrap();
    assert_eq!(
        encrypted.blocks,
        vec![
            Block::Plaintext("a".to_string()),
            Block::EncryptedCryptBlock(encrypt_with_nonce(PASSWORD, "one", vec![2u8; 12]).unwrap()),
            Block::Plaintext("b".to_string()),
            Block::EncryptedCryptBlock(encrypt_with_nonce(PASSWORD, "two", vec![4u8; 12]).unwrap()),
        ]
    );
    assert_eq!(encrypt_file_with(PASSWORD, nonces, &file), Ok(encrypted));
    assert_eq!(
        encrypt_block(PASSWORD, vec![2u8; 12], &file.blocks[0]),
        Ok(Block::Plaintext("a".to_string()))
    );
}

#[test]
fn a_block_with_a_nonce_of_the_wrong_length_is_not_decrypted() {
    let block = Block::EncryptedCryptBlock(EncryptedCryptBlock {
        algorithm: ALGORITHM.to_string(),
        nonce: vec![1, 2, 3],
        ciphertext: vec![0; 20],
    });
    assert_eq!(decrypt_block(PASSWORD, &block), Err(DecryptFault::NonceLength));
    let file = CryptFile { blocks: vec![Block::Plaintext("x".to_string()), block] };
    assert_eq!(decrypt_file(PASSWORD, &file), Err(DecryptFault::NonceLength));
}

#[test]
fn a_decrypted_block_that_is_no_text_is_refused() {
    let key = PASSWORD.as_bytes();
    let cipher = chacha20poly1305::ChaCha20Poly1305::new(chacha20poly1305::Key::from_slice(key));
    let sealed = cipher
        .encrypt(chacha20poly1305::Nonce::from_slice(&[9u8; 12]), &[0xff, 0xfe, 0xfd][..])
        .unwrap();
    let block = EncryptedCryptBlock {
        algorithm: ALGORITHM.to_string(),
        nonce: vec![9u8; 12],
        ciphertext: sealed,
    };
    assert_eq!(decrypt(PASSWORD, &block), Err(CryptoDecryptError::Utf8FromBytes));
    assert_eq!(
        decrypt_block(PASSWORD, &Block::EncryptedCryptBlock(block)),
        Err(DecryptFault::Crypto(CryptoDecryptError::Utf8FromBytes))
    );
}

#[test]
fn the_text_of_a_file_is_encrypted_and_decrypted() {
    let contents = "introBEGIN CRYPT\nsecret\nEND CRYPT";
    let encrypted = encrypt_contents(PASSWORD, contents).unwrap().unwrap();
    assert!(encrypted.starts_with("introBEGIN CRYPT.."));
    assert!(encrypted.ends_with("END CRYPT"));
    assert!(!encrypted.contains("secret"));
    assert_eq!(check_contents(&encrypted), CheckOutcome::Encrypted);
    assert_eq!(decrypt_contents(PASSWORD, &encrypted), Ok(Some(contents.to_string())));
    assert_eq!(
        decrypt_contents(OTHER_PASSWORD, &encrypted),
        Err(DecryptFault::Crypto(CryptoDecryptError::Decryption))
    );
}

#[test]
fn a_text_without_crypt_blocks_is_left_alone() {
    assert_eq!(encrypt_contents(PASSWORD, "plain"), Ok(None));
    assert_eq!(decrypt_contents(PASSWORD, "plain"), Ok(None));
}

#[test]
fn a_text_that_cannot_be_parsed_is_neither_encrypted_nor_decrypted() {
    let broken = "BEGIN CRYPT without end";
    assert_eq!(
        encrypt_contents(PASSWORD, broken),
        Err(EncryptFault::Parse(ParseError::MismatchNumStartEndCryptBlocks))
    );
    assert_eq!(
        decrypt_contents(PASSWORD, broken),
        Err(DecryptFault::Parse(ParseError::MismatchNumStartEndCryptBlocks))
    );
    assert_eq!(
        decrypt_contents(PASSWORD, "BEGIN CRYPT..AAAAEND CRYPT"),
        Err(DecryptFault::Parse(ParseError::MessagePackDecode))
    );
}
