//! Text files with blocks to encrypt. A block stands between a line that
//! holds `---BEGIN CRYPT---` and a line that holds `---END CRYPT---`; an
//! encrypted block has a header of algorithm and nonce, which ends at a line
//! that holds `---END CRYPT HEADER---`. The delimiters are found in any case
//! of letters and anywhere in their line.

use vstd::prelude::*;
use crate::text::{
    chars_of, contains, contains_spec, extend, is_blank, is_blank_spec, lines, lines_spec,
    lowercase, split, split_spec, str_lowercase, string_of, texts, trim, trim_end, trim_end_spec,
    trim_spec,
};
use crate::text_crypt::crypto::{
    chacha20poly1305_opened, chacha20poly1305_sealed, fits_cipher, open, seal, utf8_text,
    ALGORITHM, KEY_LEN, NONCE_LEN,
};
use crate::text_crypt::error::ParseError;
use crate::text_crypt::parse::{base64_bytes, base64_decode, base64_encode, base64_text};
use vstd::string::{StrSliceExecFns, StringSliceAdditionalSpecFns};
use vstd::utf8::{decode_utf8, encode_utf8, valid_utf8};

pub mod cli;
pub mod crypto;
pub mod error;
pub mod parse;

verus! {

pub const START_DELIMITER: &'static str = "---BEGIN CRYPT---";

pub const END_HEADER_DELIMITER: &'static str = "---END CRYPT HEADER---";

pub const END_DELIMITER: &'static str = "---END CRYPT---";

/// A block to encrypt, or an encrypted one: the latter has an algorithm and a
/// nonce, and its text is the ciphertext in base64.
#[derive(Debug, Clone, PartialEq, Eq)]
pub struct CryptBlock {
    pub algorithm: Option<String>,
    pub nonce: Option<String>,
    pub ciphertext: String,
}

/// What a [`CryptBlock`] is in contracts.
pub ghost struct CryptBlockView {
    pub algorithm: Option<Seq<char>>,
    pub nonce: Option<Seq<char>>,
    pub ciphertext: Seq<char>,
}

/// What an optional string is in contracts.
pub open spec fn text_of(s: Option<String>) -> Option<Seq<char>> {
    match s {
        Some(text) => Some(text@),
        None => None,
    }
}

impl View for CryptBlock {
    type V = CryptBlockView;

    open spec fn view(&self) -> CryptBlockView {
        CryptBlockView {
            algorithm: text_of(self.algorithm),
            nonce: text_of(self.nonce),
            ciphertext: self.ciphertext@,
        }
    }
}

impl CryptBlockView {
    /// A block without header and text.
    pub open spec fn empty() -> CryptBlockView {
        CryptBlockView { algorithm: None, nonce: None, ciphertext: Seq::empty() }
    }
}

impl Default for CryptBlock {
    fn default() -> (block: CryptBlock)
        ensures
            block@ == CryptBlockView::empty(),
    {
        CryptBlock { algorithm: None, nonce: None, ciphertext: String::new() }
    }
}

impl CryptBlock {
    /// Whether the block has its algorithm and its nonce.
    pub fn has_algorithm_and_nonce(&self) -> (r: bool)
        ensures
            r == (self@.algorithm is Some && self@.nonce is Some),
    {
        self.algorithm.is_some() && self.nonce.is_some()
    }

    /// A block to encrypt with the text `txt`.
    pub fn new_unencrypted(txt: &str) -> (block: CryptBlock)
        ensures
            block@ == (CryptBlockView { ciphertext: txt@, ..CryptBlockView::empty() }),
    {
        CryptBlock { algorithm: None, nonce: None, ciphertext: txt.to_owned() }
    }
}

/// A part of a file: text that stays as it is, or a crypt block.
#[derive(Debug, Clone, PartialEq, Eq)]
pub enum Block {
    Plaintext(String),
    Crypt(CryptBlock),
}

/// What a [`Block`] is in contracts.
pub ghost enum BlockView {
    Plaintext(Seq<char>),
    Crypt(CryptBlockView),
}

impl View for Block {
    type V = BlockView;

    open spec fn view(&self) -> BlockView {
        match self {
            Block::Plaintext(text) => BlockView::Plaintext(text@),
            Block::Crypt(block) => BlockView::Crypt(block@),
        }
    }
}

impl DeepView for Block {
    type V = BlockView;

    open spec fn deep_view(&self) -> BlockView {
        self@
    }
}

/// A file as its blocks, in their order.
#[derive(Debug, Clone, PartialEq, Eq)]
pub struct CryptFile {
    pub blocks: Vec<Block>,
}

impl View for CryptFile {
    type V = Seq<BlockView>;

    open spec fn view(&self) -> Seq<BlockView> {
        self.blocks.deep_view()
    }
}

/// What a line is to the parser.
#[derive(Debug, Clone, Copy, PartialEq, Eq, Structural)]
pub enum LineKind {
    /// The line begins a crypt block.
    Start,
    /// The line ends the header of a crypt block.
    EndHeader,
    /// The line ends a crypt block.
    End,
    /// The line is text.
    Text,
}

/// What a line is to the parser: the first of the delimiters begin, end of
/// header and end that the line holds decides, compared in lower case.
pub open spec fn line_kind_spec(line: Seq<char>) -> LineKind {
    let lower = str_lowercase(line);
    if contains_spec(lower, str_lowercase(START_DELIMITER@)) {
        LineKind::Start
    } else if contains_spec(lower, str_lowercase(END_HEADER_DELIMITER@)) {
        LineKind::EndHeader
    } else if contains_spec(lower, str_lowercase(END_DELIMITER@)) {
        LineKind::End
    } else {
        LineKind::Text
    }
}

/// What a line is to the parser.
pub fn line_kind(line: &Vec<char>) -> (kind: LineKind)
    ensures
        kind == line_kind_spec(line@),
{
    let lower = lowercase(line);
    if contains(&lower, &lowercase(&chars_of(START_DELIMITER))) {
        LineKind::Start
    } else if contains(&lower, &lowercase(&chars_of(END_HEADER_DELIMITER))) {
        LineKind::EndHeader
    } else if contains(&lower, &lowercase(&chars_of(END_DELIMITER))) {
        LineKind::End
    } else {
        LineKind::Text
    }
}

/// What an optional block is in contracts.
pub open spec fn open_view(open: Option<CryptBlock>) -> Option<CryptBlockView> {
    match open {
        Some(block) => Some(block@),
        None => None,
    }
}

/// Where the parser stands between two lines: the text gathered since the last
/// delimiter, the crypt block that is open, and the blocks that are done.
pub ghost struct ParseState {
    pub current: Seq<char>,
    pub open: Option<CryptBlockView>,
    pub blocks: Seq<BlockView>,
}

impl ParseState {
    pub open spec fn start() -> ParseState {
        ParseState { current: Seq::empty(), open: None, blocks: Seq::empty() }
    }

    /// The state after a line, or the fault that the line shows. `number` is
    /// the number of the line.
    ///
    /// A line that begins a block closes the text before it as a plain block.
    /// A line that ends a header takes the text since the beginning of the
    /// block as `algorithm;nonce`, the nonce without the white space around
    /// it. A line that ends a block takes the text before it as the text of the
    /// block. Any other line is added to the text, with a line feed behind it.
    pub open spec fn step(self, line: Seq<char>, number: usize) -> Result<ParseState, ParseError> {
        match line_kind_spec(line) {
            LineKind::Start => Ok(
                ParseState {
                    current: Seq::empty(),
                    open: Some(CryptBlockView::empty()),
                    blocks: self.blocks.push(BlockView::Plaintext(self.current)),
                },
            ),
            LineKind::EndHeader => {
                let header = split_spec(self.current, ';');
                if header.len() != 2 {
                    Err(ParseError::InvalidHeader(number))
                } else if self.open is None {
                    Err(ParseError::EndHeaderWithNoStart(number))
                } else if self.open->0.algorithm is Some || self.open->0.nonce is Some {
                    Err(ParseError::MultipleHeaders(number))
                } else {
                    Ok(
                        ParseState {
                            current: Seq::empty(),
                            open: Some(
                                CryptBlockView {
                                    algorithm: Some(header[0]),
                                    nonce: Some(trim_spec(header[1])),
                                    ciphertext: self.open->0.ciphertext,
                                },
                            ),
                            blocks: self.blocks,
                        },
                    )
                }
            },
            LineKind::End => {
                if is_blank_spec(self.current) {
                    Err(ParseError::EmptyCryptBlock(number))
                } else if self.open is None {
                    Err(ParseError::EndWithNoStart(number))
                } else {
                    Ok(
                        ParseState {
                            current: Seq::empty(),
                            open: None,
                            blocks: self.blocks.push(
                                BlockView::Crypt(
                                    CryptBlockView { ciphertext: self.current, ..self.open->0 },
                                ),
                            ),
                        },
                    )
                }
            },
            LineKind::Text => Ok(
                ParseState { current: self.current + line + seq!['\n'], ..self },
            ),
        }
    }

    /// The state after the lines from the place `at` on, or the first fault.
    pub open spec fn run(self, lines: Seq<Seq<char>>, at: nat) -> Result<ParseState, ParseError>
        decreases lines.len() - at,
    {
        if at >= lines.len() || at >= usize::MAX {
            Ok(self)
        } else {
            match self.step(lines[at as int], (at + 1) as usize) {
                Ok(next) => next.run(lines, at + 1),
                Err(fault) => Err(fault),
            }
        }
    }

    /// The blocks at the end of the text. A block that is still open is a
    /// fault. Text behind the last block is a plain block unless it is blank.
    pub open spec fn finish(self) -> Result<Seq<BlockView>, ParseError> {
        if self.open is Some {
            Err(ParseError::StartWithNoEnd)
        } else if is_blank_spec(self.current) {
            Ok(self.blocks)
        } else {
            Ok(self.blocks.push(BlockView::Plaintext(self.current)))
        }
    }
}

/// The blocks of a text, or the first fault in it.
pub open spec fn parse_spec(contents: Seq<char>) -> Result<Seq<BlockView>, ParseError> {
    match ParseState::start().run(lines_spec(contents), 0) {
        Ok(state) => state.finish(),
        Err(fault) => Err(fault),
    }
}

/// Parses a text into its blocks, or tells the first fault in it. `filepath`
/// names the file that the text was read from; the blocks do not depend on
/// it.
pub fn try_parse_file(filepath: &str, contents: &str) -> (r: Result<CryptFile, ParseError>)
    ensures
        r is Ok <==> parse_spec(contents@) is Ok,
        r is Ok ==> r->Ok_0@ == parse_spec(contents@)->Ok_0,
        r is Err ==> r->Err_0 == parse_spec(contents@)->Err_0,
{
    let text = chars_of(contents);
    let all = lines(&text);
    let ghost all_lines = lines_spec(contents@);
    let mut current: Vec<char> = Vec::new();
    let mut open: Option<CryptBlock> = None;
    let mut blocks: Vec<Block> = Vec::new();
    let mut i: usize = 0;
    proof {
        assert(blocks.deep_view() =~= Seq::<BlockView>::empty());
        assert(current@ =~= Seq::<char>::empty());
    }
    while i < all.len()
        invariant
            i <= all.len(),
            all_lines == lines_spec(contents@),
            texts(all@) == all_lines,
            ParseState::start().run(all_lines, 0) == (ParseState {
                current: current@,
                open: open_view(open),
                blocks: blocks.deep_view(),
            }).run(all_lines, i as nat),
        decreases all.len() - i,
    {
        let ghost state = ParseState {
            current: current@,
            open: open_view(open),
            blocks: blocks.deep_view(),
        };
        let ghost done = blocks.deep_view();
        let line = &all[i];
        assert(line@ == all_lines[i as int]);
        assert(i < usize::MAX);
        let number: usize = i + 1;
        match line_kind(line) {
            LineKind::Start => {
                blocks.push(Block::Plaintext(string_of(&current)));
                current = Vec::new();
                open = Some(CryptBlock::default());
                proof {
                    assert(blocks.deep_view() =~= done.push(BlockView::Plaintext(state.current)));
                }
            },
            LineKind::EndHeader => {
                let header = split(&current, ';');
                assert(texts(header@).len() == header.len());
                if header.len() != 2 {
                    return Err(ParseError::InvalidHeader(number));
                }
                match open {
                    None => {
                        return Err(ParseError::EndHeaderWithNoStart(number));
                    },
                    Some(block) => {
                        if block.algorithm.is_some() || block.nonce.is_some() {
                            return Err(ParseError::MultipleHeaders(number));
                        }
                        assert(texts(header@)[0] == header[0]@);
                        assert(texts(header@)[1] == header[1]@);
                        open = Some(
                            CryptBlock {
                                algorithm: Some(string_of(&header[0])),
                                nonce: Some(string_of(&trim(&header[1]))),
                                ciphertext: block.ciphertext,
                            },
                        );
                        current = Vec::new();
                    },
                }
            },
            LineKind::End => {
                if is_blank(&current) {
                    return Err(ParseError::EmptyCryptBlock(number));
                }
                match open {
                    None => {
                        return Err(ParseError::EndWithNoStart(number));
                    },
                    Some(block) => {
                        let closed = CryptBlock {
                            algorithm: block.algorithm,
                            nonce: block.nonce,
                            ciphertext: string_of(&current),
                        };
                        blocks.push(Block::Crypt(closed));
                        proof {
                            assert(blocks.deep_view() =~= done.push(
                                BlockView::Crypt(
                                    CryptBlockView {
                                        ciphertext: state.current,
                                        ..state.open->0
                                    },
                                ),
                            ));
                        }
                        current = Vec::new();
                        open = None;
                    },
                }
            },
            LineKind::Text => {
                extend(&mut current, line);
                current.push('\n');
                proof {
                    assert(current@ =~= state.current + line@ + seq!['\n']);
                }
            },
        }
        i = i + 1;
    }
    if open.is_some() {
        return Err(ParseError::StartWithNoEnd);
    }
    if !is_blank(&current) {
        let ghost done = blocks.deep_view();
        blocks.push(Block::Plaintext(string_of(&current)));
        proof {
            assert(blocks.deep_view() =~= done.push(BlockView::Plaintext(current@)));
        }
    }
    Ok(CryptFile { blocks })
}

/// Parses a text without faults into its blocks. A text with a fault, such
/// as a block that is never closed, is no input of this function: see
/// [`try_parse_file`].
pub fn parse_file(filepath: &str, contents: &str) -> (file: CryptFile)
    requires
        parse_spec(contents@) is Ok,
    ensures
        file@ == parse_spec(contents@)->Ok_0,
{
    match try_parse_file(filepath, contents) {
        Ok(file) => file,
        Err(_) => vstd::pervasive::unreached(),
    }
}

/// The text of a crypt block as it is written and decoded: without the white
/// space at its end, which the lines of a file leave there.
pub open spec fn block_text(crypt: CryptBlockView) -> Seq<char> {
    trim_end_spec(crypt.ciphertext)
}

/// A block as it stands in a file. An encrypted block is written with its
/// header, any other block without. The text of a crypt block is written
/// without the white space at its end, and a line feed behind it.
pub open spec fn render_block(block: BlockView) -> Seq<char> {
    match block {
        BlockView::Plaintext(text) => text,
        BlockView::Crypt(crypt) => {
            if crypt.algorithm is Some && crypt.nonce is Some {
                START_DELIMITER@ + seq!['\n'] + crypt.algorithm->0 + seq![';'] + crypt.nonce->0
                    + seq!['\n'] + END_HEADER_DELIMITER@ + seq!['\n'] + block_text(crypt) + seq![
                    '\n',
                ] + END_DELIMITER@ + seq!['\n']
            } else {
                START_DELIMITER@ + seq!['\n'] + block_text(crypt) + seq!['\n'] + END_DELIMITER@
                    + seq!['\n']
            }
        },
    }
}

/// The blocks as they stand in a file, one after the other.
pub open spec fn render_spec(blocks: Seq<BlockView>) -> Seq<char>
    decreases blocks.len(),
{
    if blocks.len() == 0 {
        Seq::empty()
    } else {
        render_spec(blocks.drop_last()) + render_block(blocks.last())
    }
}

impl Block {
    /// The block as it stands in a file.
    pub fn render(&self) -> (r: String)
        ensures
            r@ == render_block(self@),
    {
        match self {
            Block::Plaintext(text) => text.clone(),
            Block::Crypt(crypt) => {
                let mut out = String::new();
                out.append(START_DELIMITER);
                out.append("\n");
                proof {
                    reveal_strlit("\n");
                    reveal_strlit(";");
                    assert("\n"@ =~= seq!['\n']);
                    assert(";"@ =~= seq![';']);
                }
                match (&crypt.algorithm, &crypt.nonce) {
                    (Some(algorithm), Some(nonce)) => {
                        out.append(algorithm.as_str());
                        out.append(";");
                        out.append(nonce.as_str());
                        out.append("\n");
                        out.append(END_HEADER_DELIMITER);
                        out.append("\n");
                    },
                    _ => {},
                }
                let text = string_of(&trim_end(&chars_of(crypt.ciphertext.as_str())));
                out.append(text.as_str());
                out.append("\n");
                out.append(END_DELIMITER);
                out.append("\n");
                out
            },
        }
    }
}

impl CryptFile {
    /// The file as text: its blocks as they stand in a file, one after the
    /// other.
    pub fn render(&self) -> (r: String)
        ensures
            r@ == render_spec(self@),
    {
        let mut out = String::new();
        let mut i: usize = 0;
        while i < self.blocks.len()
            invariant
                i <= self.blocks.len(),
                out@ == render_spec(self@.take(i as int)),
            decreases self.blocks.len() - i,
        {
            proof {
                assert(self@.take(i + 1).drop_last() =~= self@.take(i as int));
                assert(self@.take(i + 1).last() == self.blocks[i as int]@);
            }
            let piece = self.blocks[i].render();
            out.append(piece.as_str());
            i = i + 1;
        }
        proof {
            assert(self@.take(self.blocks.len() as int) =~= self@);
        }
        out
    }
}

/// The nonce of every block that [`encrypt`] and [`try_encrypt`] make.
pub const FIXED_NONCE: &'static str = "unique nonce";

impl CryptBlock {
    /// Whether the block is encrypted: it has its algorithm and its nonce, and
    /// its text, without the white space at its end, is base64.
    pub fn is_encrypted(&self) -> (r: bool)
        ensures
            r == (self@.algorithm is Some && self@.nonce is Some && base64_bytes(
                block_text(self@),
            ) is Some),
    {
        if !self.has_algorithm_and_nonce() {
            return false;
        }
        let text = string_of(&trim_end(&chars_of(self.ciphertext.as_str())));
        base64_decode(text.as_str()).is_some()
    }
}

/// The fixed nonce has the length of a nonce.
pub proof fn lemma_fixed_nonce_len()
    ensures
        FIXED_NONCE.spec_bytes().len() == NONCE_LEN,
{
    reveal_strlit("unique nonce");
    vstd::string::is_ascii_spec_bytes(FIXED_NONCE);
    assert(vstd::string::is_ascii(FIXED_NONCE)) by {
        assert forall|i: int| 0 <= i < FIXED_NONCE@.len() implies (FIXED_NONCE@[i] as u32) < 128 by {}
    }
}

/// The encrypted block for a ciphertext.
pub open spec fn sealed_block(ciphertext: Seq<u8>) -> CryptBlockView {
    CryptBlockView {
        algorithm: Some(ALGORITHM@),
        nonce: Some(FIXED_NONCE@),
        ciphertext: base64_text(ciphertext),
    }
}

/// Encrypts `contents` under `password` and the fixed nonce. Nothing is
/// returned where the cipher fails.
pub fn try_encrypt(password: &str, contents: &str) -> (r: Option<CryptBlock>)
    requires
        password.spec_bytes().len() == KEY_LEN,
    ensures
        match chacha20poly1305_sealed(
            password.spec_bytes(),
            FIXED_NONCE.spec_bytes(),
            contents.spec_bytes(),
        ) {
            Some(ciphertext) => r is Some && r->0@ == sealed_block(ciphertext),
            None => r is None,
        },
{
    let key = password.as_bytes_vec();
    let nonce = FIXED_NONCE.as_bytes_vec();
    let plaintext = contents.as_bytes_vec();
    proof {
        lemma_fixed_nonce_len();
    }
    match seal(&key, &nonce, &plaintext) {
        Some(ciphertext) => Some(
            CryptBlock {
                algorithm: Some(ALGORITHM.to_owned()),
                nonce: Some(FIXED_NONCE.to_owned()),
                ciphertext: base64_encode(&ciphertext),
            },
        ),
        None => None,
    }
}

/// Encrypts `contents` under `password` and the fixed nonce. A text that the
/// cipher does not take is no input of this function: see [`try_encrypt`].
pub fn encrypt(password: &str, contents: &str) -> (block: CryptBlock)
    requires
        password.spec_bytes().len() == KEY_LEN,
        fits_cipher(contents.spec_bytes().len()),
    ensures
        chacha20poly1305_sealed(
            password.spec_bytes(),
            FIXED_NONCE.spec_bytes(),
            contents.spec_bytes(),
        ) is Some,
        block@ == sealed_block(
            chacha20poly1305_sealed(
                password.spec_bytes(),
                FIXED_NONCE.spec_bytes(),
                contents.spec_bytes(),
            )->0,
        ),
{
    let key = password.as_bytes_vec();
    let nonce = FIXED_NONCE.as_bytes_vec();
    let plaintext = contents.as_bytes_vec();
    proof {
        lemma_fixed_nonce_len();
    }
    match seal(&key, &nonce, &plaintext) {
        Some(ciphertext) => CryptBlock {
            algorithm: Some(ALGORITHM.to_owned()),
            nonce: Some(FIXED_NONCE.to_owned()),
            ciphertext: base64_encode(&ciphertext),
        },
        None => vstd::pervasive::unreached(),
    }
}

/// Why an encrypted block could not be decrypted.
#[derive(Debug, Clone, Copy, PartialEq, Eq, Structural)]
pub enum CryptError {
    /// The block has no nonce.
    MissingNonce,
    /// The nonce has not 12 bytes.
    NonceLength,
    /// The text of the block is not base64.
    Base64,
    /// The ciphertext is not authentic under the key and the nonce.
    Decryption,
    /// The plaintext is not UTF-8.
    Utf8,
}

/// The text that decrypting a block under `password` gives, or why it gives
/// none. `ciphertext` is the text of the block without the white space at its
/// end.
pub open spec fn decrypt_block_spec(password: Seq<u8>, nonce: Option<Seq<u8>>, ciphertext: Seq<char>) -> Result<
    Seq<char>,
    CryptError,
> {
    match nonce {
        None => Err(CryptError::MissingNonce),
        Some(nonce) => if nonce.len() != NONCE_LEN {
            Err(CryptError::NonceLength)
        } else {
            match base64_bytes(ciphertext) {
                None => Err(CryptError::Base64),
                Some(bytes) => match chacha20poly1305_opened(password, nonce, bytes) {
                    None => Err(CryptError::Decryption),
                    Some(plaintext) => if valid_utf8(plaintext) {
                        Ok(decode_utf8(plaintext))
                    } else {
                        Err(CryptError::Utf8)
                    },
                },
            }
        },
    }
}

/// The bytes of an optional string.
pub open spec fn bytes_of(s: Option<String>) -> Option<Seq<u8>> {
    match s {
        Some(text) => Some(encode_utf8(text@)),
        None => None,
    }
}

/// Decrypts an encrypted block under `password`, or tells why it cannot be
/// decrypted.
pub fn try_decrypt(password: &str, encrypted: &CryptBlock) -> (r: Result<String, CryptError>)
    requires
        password.spec_bytes().len() == KEY_LEN,
    ensures
        r is Ok <==> decrypt_block_spec(
            password.spec_bytes(),
            bytes_of(encrypted.nonce),
            block_text(encrypted@),
        ) is Ok,
        r is Ok ==> r->Ok_0@ == decrypt_block_spec(
            password.spec_bytes(),
            bytes_of(encrypted.nonce),
            block_text(encrypted@),
        )->Ok_0,
        r is Err ==> r->Err_0 == decrypt_block_spec(
            password.spec_bytes(),
            bytes_of(encrypted.nonce),
            block_text(encrypted@),
        )->Err_0,
{
    let key = password.as_bytes_vec();
    match &encrypted.nonce {
        None => Err(CryptError::MissingNonce),
        Some(nonce_text) => {
            let nonce = nonce_text.as_str().as_bytes_vec();
            if nonce.len() != NONCE_LEN {
                return Err(CryptError::NonceLength);
            }
            let text = string_of(&trim_end(&chars_of(encrypted.ciphertext.as_str())));
            match base64_decode(text.as_str()) {
                None => Err(CryptError::Base64),
                Some(bytes) => match open(&key, &nonce, &bytes) {
                    None => Err(CryptError::Decryption),
                    Some(plaintext) => match utf8_text(plaintext) {
                        Some(text) => Ok(text),
                        None => Err(CryptError::Utf8),
                    },
                },
            }
        },
    }
}

/// Decrypts an encrypted block under `password`. A block that cannot be
/// decrypted, for want of a nonce of 12 bytes, of base64 text, of an authentic
/// ciphertext or of a plaintext in UTF-8, is no input of this function: see
/// [`try_decrypt`].
pub fn decrypt(password: &str, encrypted: &CryptBlock) -> (text: String)
    requires
        password.spec_bytes().len() == KEY_LEN,
        decrypt_block_spec(
            password.spec_bytes(),
            bytes_of(encrypted.nonce),
            block_text(encrypted@),
        ) is Ok,
    ensures
        text@ == decrypt_block_spec(
            password.spec_bytes(),
            bytes_of(encrypted.nonce),
            block_text(encrypted@),
        )->Ok_0,
{
    match try_decrypt(password, encrypted) {
        Ok(text) => text,
        Err(_) => vstd::pervasive::unreached(),
    }
}

} // verus!
