//! What the commands do with the text of one file: check it, encrypt its
//! open blocks, or decrypt its encrypted ones.

use crate::text::{chars_of, matches_at, occurs_at, same_chars};
use crate::text_crypt::crypto::{
    decrypt, decrypt_spec, encrypt_spec, encrypt_with_nonce, generate_random_nonce,
    CryptoDecryptError, CryptoEncryptError, KEY_LEN, NONCE_LEN,
};
use crate::text_crypt::error::{EncryptedCryptEncodingError, ParseError};
use crate::text_crypt::parse::{
    from_str_spec, regex_match, render_spec, Block, BlockView, CryptFile, EncryptedCryptBlock,
    IS_CRYPT_FILE_PATTERN,
};
use vstd::prelude::*;
use vstd::string::{StrSliceExecFns, StringSliceAdditionalSpecFns};
use vstd::utf8::encode_utf8;

verus! {

/// What ends the name of a binary file that the commands pass over.
pub const BINARY_SUFFIX: &'static str = ".gpg";

/// Whether a walk passes over an entry of this name: a hidden one, whose
/// name begins with a dot and is neither `.` nor `..`, or a binary one, whose
/// name ends in [`BINARY_SUFFIX`].
pub open spec fn is_hidden_or_binary_spec(name: Seq<char>) -> bool {
    ||| (name != "."@ && name != ".."@ && occurs_at(name, "."@, 0))
    ||| occurs_at(name, BINARY_SUFFIX@, name.len() - BINARY_SUFFIX@.len())
}

/// Whether a walk passes over an entry of this name.
pub fn is_hidden_or_binary(name: &str) -> (r: bool)
    ensures
        r == is_hidden_or_binary_spec(name@),
{
    let text = chars_of(name);
    let dot = chars_of(".");
    let dots = chars_of("..");
    let suffix = chars_of(BINARY_SUFFIX);
    let hidden = !same_chars(&text, &dot) && !same_chars(&text, &dots) && matches_at(
        &text,
        &dot,
        0,
    );
    let binary = text.len() >= suffix.len() && matches_at(
        &text,
        &suffix,
        text.len() - suffix.len(),
    );
    hidden || binary
}

/// Whether a text holds a crypt block.
pub open spec fn is_crypt_file_spec(contents: Seq<char>) -> bool {
    regex_match(IS_CRYPT_FILE_PATTERN@, contents) == Some(true)
}

/// Whether one of the blocks is still to encrypt.
pub open spec fn has_unencrypted(blocks: Seq<BlockView>) -> bool {
    exists|i: int| 0 <= i < blocks.len() && (#[trigger] blocks[i]) is UnencryptedCryptBlock
}

/// What the check of one file finds.
#[derive(Debug, Clone, Copy, PartialEq, Eq, Structural)]
pub enum CheckOutcome {
    /// The file holds no crypt block.
    NotCryptFile,
    /// Every crypt block of the file is encrypted.
    Encrypted,
    /// A crypt block of the file is still to encrypt.
    Unencrypted,
    /// The file cannot be parsed.
    Unparsable(ParseError),
}

/// What the check of a file with these contents finds.
pub open spec fn check_spec(contents: Seq<char>) -> CheckOutcome {
    if !is_crypt_file_spec(contents) {
        CheckOutcome::NotCryptFile
    } else {
        match from_str_spec(contents) {
            Err(e) => CheckOutcome::Unparsable(e),
            Ok(blocks) => if has_unencrypted(blocks) {
                CheckOutcome::Unencrypted
            } else {
                CheckOutcome::Encrypted
            },
        }
    }
}

/// Checks the contents of one file.
pub fn check_contents(contents: &str) -> (r: CheckOutcome)
    ensures
        r == check_spec(contents@),
{
    if !CryptFile::is_crypt_file(contents) {
        return CheckOutcome::NotCryptFile;
    }
    match CryptFile::from_str(contents) {
        Err(e) => CheckOutcome::Unparsable(e),
        Ok(file) => {
            if file.has_unencrypted_crypt_blocks() {
                CheckOutcome::Unencrypted
            } else {
                CheckOutcome::Encrypted
            }
        },
    }
}

/// Why the text of a file could not be decrypted.
#[derive(Debug, Clone, Copy, PartialEq, Eq, Structural)]
pub enum DecryptFault {
    /// The file cannot be parsed.
    Parse(ParseError),
    /// An encrypted block holds a nonce of the wrong length.
    NonceLength,
    /// An encrypted block could not be decrypted.
    Crypto(CryptoDecryptError),
    /// The result cannot be written.
    Encode(EncryptedCryptEncodingError),
}

/// A block after decryption under `password`: an encrypted block becomes a
/// block to encrypt that holds its text, the others stay.
pub open spec fn decrypt_block_spec(password: Seq<u8>, block: BlockView) -> Result<
    BlockView,
    DecryptFault,
> {
    match block {
        BlockView::EncryptedCryptBlock(encrypted) => if encrypted.nonce.len() != NONCE_LEN {
            Err(DecryptFault::NonceLength)
        } else {
            match decrypt_spec(password, encrypted.nonce, encrypted.ciphertext) {
                Ok(text) => Ok(BlockView::UnencryptedCryptBlock(text)),
                Err(e) => Err(DecryptFault::Crypto(e)),
            }
        },
        _ => Ok(block),
    }
}

/// The blocks after decryption under `password`, or the fault of the first
/// block that has one.
pub open spec fn decrypt_blocks_spec(password: Seq<u8>, blocks: Seq<BlockView>) -> Result<
    Seq<BlockView>,
    DecryptFault,
>
    decreases blocks.len(),
{
    if blocks.len() == 0 {
        Ok(Seq::empty())
    } else {
        match decrypt_blocks_spec(password, blocks.drop_last()) {
            Err(e) => Err(e),
            Ok(before) => match decrypt_block_spec(password, blocks.last()) {
                Ok(block) => Ok(before.push(block)),
                Err(e) => Err(e),
            },
        }
    }
}

/// Where the first blocks have a fault, all the blocks have it.
pub proof fn lemma_decrypt_prefix(password: Seq<u8>, blocks: Seq<BlockView>, n: int)
    requires
        0 <= n <= blocks.len(),
        decrypt_blocks_spec(password, blocks.take(n)) is Err,
    ensures
        decrypt_blocks_spec(password, blocks) == decrypt_blocks_spec(password, blocks.take(n)),
    decreases blocks.len() - n,
{
    if n < blocks.len() {
        assert(blocks.take(n + 1).drop_last() =~= blocks.take(n));
        lemma_decrypt_prefix(password, blocks, n + 1);
    } else {
        assert(blocks.take(n) =~= blocks);
    }
}

/// Decrypts one block.
pub fn decrypt_block(password: &str, block: &Block) -> (r: Result<Block, DecryptFault>)
    requires
        password.spec_bytes().len() == KEY_LEN,
    ensures
        r is Ok <==> decrypt_block_spec(password.spec_bytes(), block@) is Ok,
        r matches Ok(b) ==> b@ == decrypt_block_spec(password.spec_bytes(), block@)->Ok_0,
        r matches Err(e) ==> e == decrypt_block_spec(password.spec_bytes(), block@)->Err_0,
{
    match block {
        Block::Plaintext(text) => Ok(Block::Plaintext(text.clone())),
        Block::UnencryptedCryptBlock(text) => Ok(Block::UnencryptedCryptBlock(text.clone())),
        Block::EncryptedCryptBlock(encrypted) => {
            if encrypted.nonce.len() != NONCE_LEN {
                return Err(DecryptFault::NonceLength);
            }
            match decrypt(password, encrypted) {
                Ok(text) => Ok(Block::UnencryptedCryptBlock(text)),
                Err(e) => Err(DecryptFault::Crypto(e)),
            }
        },
    }
}

/// Decrypts the encrypted blocks of a file.
pub fn decrypt_file(password: &str, file: &CryptFile) -> (r: Result<CryptFile, DecryptFault>)
    requires
        password.spec_bytes().len() == KEY_LEN,
    ensures
        r is Ok <==> decrypt_blocks_spec(password.spec_bytes(), file@) is Ok,
        r matches Ok(f) ==> f@ == decrypt_blocks_spec(password.spec_bytes(), file@)->Ok_0,
        r matches Err(e) ==> e == decrypt_blocks_spec(password.spec_bytes(), file@)->Err_0,
{
    let mut blocks: Vec<Block> = Vec::new();
    let mut i: usize = 0;
    proof {
        assert(file@.len() == file.blocks.len());
        assert(file@.take(0) =~= Seq::<BlockView>::empty());
        assert(blocks.deep_view() =~= Seq::<BlockView>::empty());
    }
    while i < file.blocks.len()
        invariant
            i <= file.blocks.len(),
            file@.len() == file.blocks.len(),
            decrypt_blocks_spec(password.spec_bytes(), file@.take(i as int)) == Ok::<
                Seq<BlockView>,
                DecryptFault,
            >(blocks.deep_view()),
            password.spec_bytes().len() == KEY_LEN,
        decreases file.blocks.len() - i,
    {
        let ghost before = blocks.deep_view();
        proof {
            assert(file@.take(i + 1).drop_last() =~= file@.take(i as int));
            assert(file@.take(i + 1).last() == file.blocks[i as int]@);
        }
        match decrypt_block(password, &file.blocks[i]) {
            Ok(block) => {
                blocks.push(block);
                assert(blocks.deep_view() =~= before.push(block@));
            },
            Err(e) => {
                proof {
                    lemma_decrypt_prefix(password.spec_bytes(), file@, i + 1);
                }
                return Err(e);
            },
        }
        i = i + 1;
    }
    proof {
        assert(file@.take(file.blocks.len() as int) =~= file@);
    }
    Ok(CryptFile { blocks })
}

/// The text of a file after decryption under `password`: nothing where the
/// file holds no crypt block, else the file written anew with its encrypted
/// blocks decrypted.
pub open spec fn decrypt_contents_spec(password: Seq<u8>, contents: Seq<char>) -> Result<
    Option<Seq<char>>,
    DecryptFault,
> {
    if !is_crypt_file_spec(contents) {
        Ok(None)
    } else {
        match from_str_spec(contents) {
            Err(e) => Err(DecryptFault::Parse(e)),
            Ok(blocks) => match decrypt_blocks_spec(password, blocks) {
                Err(e) => Err(e),
                Ok(decrypted) => match render_spec(decrypted) {
                    Some(text) => Ok(Some(text)),
                    None => Err(DecryptFault::Encode(EncryptedCryptEncodingError::MessagePackEncode)),
                },
            },
        }
    }
}

/// An outcome by its text.
pub open spec fn text_of_outcome<E>(r: Result<Option<String>, E>) -> Result<Option<Seq<char>>, E> {
    match r {
        Ok(Some(text)) => Ok(Some(text@)),
        Ok(None) => Ok(None),
        Err(e) => Err(e),
    }
}

/// The text of a file after decryption under `password`.
pub fn decrypt_contents(password: &str, contents: &str) -> (r: Result<Option<String>, DecryptFault>)
    requires
        password.spec_bytes().len() == KEY_LEN,
    ensures
        text_of_outcome(r) == decrypt_contents_spec(password.spec_bytes(), contents@),
{
    if !CryptFile::is_crypt_file(contents) {
        return Ok(None);
    }
    let file = match CryptFile::from_str(contents) {
        Ok(file) => file,
        Err(e) => {
            return Err(DecryptFault::Parse(e));
        },
    };
    let decrypted = match decrypt_file(password, &file) {
        Ok(decrypted) => decrypted,
        Err(e) => {
            return Err(e);
        },
    };
    match decrypted.render() {
        Ok(text) => Ok(Some(text)),
        Err(e) => Err(DecryptFault::Encode(e)),
    }
}

/// Why the text of a file could not be encrypted.
#[derive(Debug, Clone, Copy, PartialEq, Eq, Structural)]
pub enum EncryptFault {
    /// The file cannot be parsed.
    Parse(ParseError),
    /// A block could not be encrypted.
    Crypto(CryptoEncryptError),
    /// The result cannot be written.
    Encode(EncryptedCryptEncodingError),
}

/// A block after encryption under `password` and `nonce`: a block to
/// encrypt becomes an encrypted one, the others stay.
pub open spec fn encrypt_block_spec(password: Seq<u8>, nonce: Seq<u8>, block: BlockView) -> Result<
    BlockView,
    EncryptFault,
> {
    match block {
        BlockView::UnencryptedCryptBlock(text) => match encrypt_spec(
            password,
            nonce,
            encode_utf8(text),
        ) {
            Ok(encrypted) => Ok(BlockView::EncryptedCryptBlock(encrypted)),
            Err(e) => Err(EncryptFault::Crypto(e)),
        },
        _ => Ok(block),
    }
}

/// The blocks after encryption under `password`, each under the nonce of
/// its place, or the fault of the first block that has one.
pub open spec fn encrypt_blocks_spec(
    password: Seq<u8>,
    nonces: Seq<Seq<u8>>,
    blocks: Seq<BlockView>,
) -> Result<Seq<BlockView>, EncryptFault>
    decreases blocks.len(),
{
    if blocks.len() == 0 || nonces.len() != blocks.len() {
        Ok(Seq::empty())
    } else {
        match encrypt_blocks_spec(password, nonces.drop_last(), blocks.drop_last()) {
            Err(e) => Err(e),
            Ok(before) => match encrypt_block_spec(password, nonces.last(), blocks.last()) {
                Ok(block) => Ok(before.push(block)),
                Err(e) => Err(e),
            },
        }
    }
}

/// Where the first blocks have a fault, all the blocks have it.
pub proof fn lemma_encrypt_prefix(
    password: Seq<u8>,
    nonces: Seq<Seq<u8>>,
    blocks: Seq<BlockView>,
    n: int,
)
    requires
        0 <= n <= blocks.len(),
        nonces.len() == blocks.len(),
        encrypt_blocks_spec(password, nonces.take(n), blocks.take(n)) is Err,
    ensures
        encrypt_blocks_spec(password, nonces, blocks) == encrypt_blocks_spec(
            password,
            nonces.take(n),
            blocks.take(n),
        ),
    decreases blocks.len() - n,
{
    if n < blocks.len() {
        assert(blocks.take(n + 1).drop_last() =~= blocks.take(n));
        assert(nonces.take(n + 1).drop_last() =~= nonces.take(n));
        lemma_encrypt_prefix(password, nonces, blocks, n + 1);
    } else {
        assert(blocks.take(n) =~= blocks);
        assert(nonces.take(n) =~= nonces);
    }
}

/// Whether there is one nonce of the right length for each block.
pub open spec fn nonces_fit(nonces: Seq<Seq<u8>>, blocks: Seq<BlockView>) -> bool {
    &&& nonces.len() == blocks.len()
    &&& forall|i: int| 0 <= i < nonces.len() ==> (#[trigger] nonces[i]).len() == NONCE_LEN
}

/// Encrypts one block under the given nonce.
pub fn encrypt_block(password: &str, nonce: Vec<u8>, block: &Block) -> (r: Result<
    Block,
    EncryptFault,
>)
    requires
        password.spec_bytes().len() == KEY_LEN,
        nonce.len() == NONCE_LEN,
    ensures
        r is Ok <==> encrypt_block_spec(password.spec_bytes(), nonce@, block@) is Ok,
        r matches Ok(b) ==> b@ == encrypt_block_spec(password.spec_bytes(), nonce@, block@)->Ok_0,
        r matches Err(e) ==> e == encrypt_block_spec(password.spec_bytes(), nonce@, block@)->Err_0,
{
    match block {
        Block::Plaintext(text) => Ok(Block::Plaintext(text.clone())),
        Block::EncryptedCryptBlock(encrypted) => Ok(
            Block::EncryptedCryptBlock(
                EncryptedCryptBlock {
                    algorithm: encrypted.algorithm.clone(),
                    nonce: encrypted.nonce.clone(),
                    ciphertext: encrypted.ciphertext.clone(),
                },
            ),
        ),
        Block::UnencryptedCryptBlock(text) => {
            match encrypt_with_nonce(password, text.as_str(), nonce) {
                Ok(encrypted) => Ok(Block::EncryptedCryptBlock(encrypted)),
                Err(e) => Err(EncryptFault::Crypto(e)),
            }
        },
    }
}

/// Encrypts the open blocks of a file, the block of each place under the
/// nonce of that place.
pub fn encrypt_file_with(password: &str, nonces: Vec<Vec<u8>>, file: &CryptFile) -> (r: Result<
    CryptFile,
    EncryptFault,
>)
    requires
        password.spec_bytes().len() == KEY_LEN,
        nonces_fit(nonces.deep_view(), file@),
    ensures
        r is Ok <==> encrypt_blocks_spec(password.spec_bytes(), nonces.deep_view(), file@) is Ok,
        r matches Ok(f) ==> f@ == encrypt_blocks_spec(
            password.spec_bytes(),
            nonces.deep_view(),
            file@,
        )->Ok_0,
        r matches Err(e) ==> e == encrypt_blocks_spec(
            password.spec_bytes(),
            nonces.deep_view(),
            file@,
        )->Err_0,
{
    let mut blocks: Vec<Block> = Vec::new();
    let mut i: usize = 0;
    let ghost all = nonces.deep_view();
    proof {
        assert(file@.len() == file.blocks.len());
        assert(all.len() == nonces.len());
        assert(file@.take(0) =~= Seq::<BlockView>::empty());
        assert(blocks.deep_view() =~= Seq::<BlockView>::empty());
    }
    while i < file.blocks.len()
        invariant
            i <= file.blocks.len(),
            file@.len() == file.blocks.len(),
            all == nonces.deep_view(),
            nonces.len() == file.blocks.len(),
            nonces_fit(all, file@),
            encrypt_blocks_spec(
                password.spec_bytes(),
                all.take(i as int),
                file@.take(i as int),
            ) == Ok::<Seq<BlockView>, EncryptFault>(blocks.deep_view()),
            password.spec_bytes().len() == KEY_LEN,
        decreases file.blocks.len() - i,
    {
        let ghost before = blocks.deep_view();
        proof {
            assert(file@.take(i + 1).drop_last() =~= file@.take(i as int));
            assert(all.take(i + 1).drop_last() =~= all.take(i as int));
            assert(file@.take(i + 1).last() == file.blocks[i as int]@);
            assert(all.take(i + 1).last() == nonces[i as int]@);
            assert(all[i as int].len() == NONCE_LEN);
        }
        match encrypt_block(password, nonces[i].clone(), &file.blocks[i]) {
            Ok(block) => {
                blocks.push(block);
                assert(blocks.deep_view() =~= before.push(block@));
            },
            Err(e) => {
                proof {
                    lemma_encrypt_prefix(password.spec_bytes(), all, file@, i + 1);
                }
                return Err(e);
            },
        }
        i = i + 1;
    }
    proof {
        assert(file@.take(file.blocks.len() as int) =~= file@);
        assert(all.take(file.blocks.len() as int) =~= all);
    }
    Ok(CryptFile { blocks })
}

/// New random nonces, one for each of `count` blocks.
pub fn generate_nonces(count: usize) -> (nonces: Vec<Vec<u8>>)
    ensures
        nonces.len() == count,
        forall|i: int| 0 <= i < count ==> (#[trigger] nonces.deep_view()[i]).len() == NONCE_LEN,
{
    let mut nonces: Vec<Vec<u8>> = Vec::new();
    let mut i: usize = 0;
    while i < count
        invariant
            i <= count,
            nonces.len() == i,
            forall|j: int| 0 <= j < i ==> (#[trigger] nonces[j]).len() == NONCE_LEN,
        decreases count - i,
    {
        nonces.push(generate_random_nonce());
        i = i + 1;
    }
    proof {
        assert(nonces.deep_view().len() == nonces.len());
        assert forall|i: int| 0 <= i < count implies (#[trigger] nonces.deep_view()[i]).len()
            == NONCE_LEN by {
            assert(nonces.deep_view()[i] == nonces[i]@);
        }
    }
    nonces
}

/// Encrypts the open blocks of a file, each under a new random nonce. A
/// file without open blocks comes back as it is.
pub fn encrypt_file(password: &str, file: &CryptFile) -> (r: Result<CryptFile, EncryptFault>)
    requires
        password.spec_bytes().len() == KEY_LEN,
    ensures
        exists|nonces: Seq<Seq<u8>>|
            {
                &&& nonces_fit(nonces, file@)
                &&& (r is Ok <==> (#[trigger] encrypt_blocks_spec(
                    password.spec_bytes(),
                    nonces,
                    file@,
                )) is Ok)
                &&& (r matches Ok(f) ==> f@ == encrypt_blocks_spec(
                    password.spec_bytes(),
                    nonces,
                    file@,
                )->Ok_0)
                &&& (r matches Err(e) ==> e == encrypt_blocks_spec(
                    password.spec_bytes(),
                    nonces,
                    file@,
                )->Err_0)
            },
{
    let nonces = generate_nonces(file.blocks.len());
    let ghost chosen = nonces.deep_view();
    proof {
        assert(file@.len() == file.blocks.len());
        assert(chosen.len() == nonces.len());
        assert(nonces_fit(chosen, file@));
    }
    let r = encrypt_file_with(password, nonces, file);
    proof {
        let made = encrypt_blocks_spec(password.spec_bytes(), chosen, file@);
        assert(r is Ok <==> made is Ok);
    }
    r
}

/// The text of a file after encryption of the given blocks under the given
/// nonces.
pub open spec fn encrypt_text_spec(password: Seq<u8>, nonces: Seq<Seq<u8>>, blocks: Seq<BlockView>) -> Result<
    Seq<char>,
    EncryptFault,
> {
    match encrypt_blocks_spec(password, nonces, blocks) {
        Err(e) => Err(e),
        Ok(encrypted) => match render_spec(encrypted) {
            Some(text) => Ok(text),
            None => Err(EncryptFault::Encode(EncryptedCryptEncodingError::MessagePackEncode)),
        },
    }
}

/// The text of a file after encryption under `password`: nothing where the
/// file holds no crypt block, else the file written anew with its open blocks
/// encrypted, each under a new random nonce.
pub fn encrypt_contents(password: &str, contents: &str) -> (r: Result<Option<String>, EncryptFault>)
    requires
        password.spec_bytes().len() == KEY_LEN,
    ensures
        !is_crypt_file_spec(contents@) ==> r == Ok::<Option<String>, EncryptFault>(None),
        is_crypt_file_spec(contents@) ==> match from_str_spec(contents@) {
            Err(e) => r == Err::<Option<String>, EncryptFault>(EncryptFault::Parse(e)),
            Ok(blocks) => exists|nonces: Seq<Seq<u8>>|
                {
                    &&& nonces_fit(nonces, blocks)
                    &&& match #[trigger] encrypt_text_spec(password.spec_bytes(), nonces, blocks) {
                        Ok(text) => r matches Ok(Some(t)) && t@ == text,
                        Err(e) => r == Err::<Option<String>, EncryptFault>(e),
                    }
                },
        },
{
    if !CryptFile::is_crypt_file(contents) {
        return Ok(None);
    }
    let file = match CryptFile::from_str(contents) {
        Ok(file) => file,
        Err(e) => {
            return Err(EncryptFault::Parse(e));
        },
    };
    let nonces = generate_nonces(file.blocks.len());
    let ghost chosen = nonces.deep_view();
    proof {
        assert(file@.len() == file.blocks.len());
        assert(chosen.len() == nonces.len());
        assert(nonces_fit(chosen, file@));
    }
    let encrypted = match encrypt_file_with(password, nonces, &file) {
        Ok(encrypted) => encrypted,
        Err(e) => {
            assert(encrypt_text_spec(password.spec_bytes(), chosen, file@) is Err);
            return Err(e);
        },
    };
    match encrypted.render() {
        Ok(text) => {
            assert(encrypt_text_spec(password.spec_bytes(), chosen, file@) is Ok);
            Ok(Some(text))
        },
        Err(e) => {
            assert(encrypt_text_spec(password.spec_bytes(), chosen, file@) is Err);
            Err(EncryptFault::Encode(e))
        },
    }
}

} // verus!
