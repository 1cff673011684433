//! Files whose encrypted blocks are armored: packed, written in base64 and
//! set between `BEGIN CRYPT..` and `END CRYPT`.

use vstd::prelude::*;
use serde::Serialize;
use crate::text::{
    chars_of, extend, find_all, matches_at, occurrences, occurs_at, places, same_chars, slice_of,
    str_uppercase, string_of, trim, trim_spec, uppercase,
};
use crate::text_crypt::error::{EncryptedCryptEncodingError, ParseError};

verus! {

pub const BEGIN_CRYPT_STR: &'static str = "BEGIN CRYPT";

pub const BEGIN_ENCRYPTED_CRYPT_ENCRYPTION_MARKER_STR: &'static str = "..";

pub const END_CRYPT_STR: &'static str = "END CRYPT";

/// The pattern that a text matches if it holds a crypt block.
pub const IS_CRYPT_FILE_PATTERN: &'static str = r"(?i)BEGIN[\s\W\p{Punct}]*CRYPT";

/// What `base64::encode_config` with `STANDARD_NO_PAD` makes of bytes.
pub uninterp spec fn base64_text(bytes: Seq<u8>) -> Seq<char>;

/// What `base64::decode_config` with `STANDARD_NO_PAD` makes of a text:
/// nothing where the text is not base64.
pub uninterp spec fn base64_bytes(text: Seq<char>) -> Option<Seq<u8>>;

/// What `rmp_serde` packs the three parts of an encrypted block into, as the
/// list of the three: nothing where it fails.
pub uninterp spec fn msgpack_bytes(algorithm: Seq<char>, nonce: Seq<u8>, ciphertext: Seq<u8>) -> Option<Seq<u8>>;

/// What `rmp_serde::from_read` unpacks from bytes as the list of the three
/// parts of an encrypted block: nothing where the bytes are no such list.
pub uninterp spec fn msgpack_block(bytes: Seq<u8>) -> Option<(Seq<char>, Seq<u8>, Seq<u8>)>;

/// Whether `regex` finds a match of a pattern in a text: nothing where the
/// pattern does not compile.
pub uninterp spec fn regex_match(pattern: Seq<char>, haystack: Seq<char>) -> Option<bool>;

/// `base64::encode_config` with `base64::STANDARD_NO_PAD`. It fails on no list
/// of bytes that memory can hold.
#[verifier::external_body]
pub(crate) fn base64_encode(bytes: &Vec<u8>) -> (text: String)
    ensures
        text@ == base64_text(bytes@),
{
    base64::encode_config(bytes, base64::STANDARD_NO_PAD)
}

/// `base64::decode_config` with `base64::STANDARD_NO_PAD`: the bytes, or
/// nothing where the text is not base64.
#[verifier::external_body]
pub(crate) fn base64_decode(text: &str) -> (bytes: Option<Vec<u8>>)
    ensures
        bytes is Some <==> base64_bytes(text@) is Some,
        bytes is Some ==> bytes->0@ == base64_bytes(text@)->0,
{
    base64::decode_config(text, base64::STANDARD_NO_PAD).ok()
}

/// `rmp_serde::Serializer::new` and `Serialize::serialize`, on the three parts
/// as a list of three.
#[verifier::external_body]
fn msgpack_encode(algorithm: &String, nonce: &Vec<u8>, ciphertext: &Vec<u8>) -> (bytes: Option<Vec<u8>>)
    ensures
        bytes is Some <==> msgpack_bytes(algorithm@, nonce@, ciphertext@) is Some,
        bytes is Some ==> bytes->0@ == msgpack_bytes(algorithm@, nonce@, ciphertext@)->0,
{
    let mut buf: Vec<u8> = Vec::new();
    let parts = (algorithm, nonce, ciphertext);
    match parts.serialize(&mut rmp_serde::Serializer::new(&mut buf)) {
        Ok(_) => Some(buf),
        Err(_) => None,
    }
}

/// `rmp_serde::from_read`, for a list of the three parts.
#[verifier::external_body]
fn msgpack_decode(bytes: &Vec<u8>) -> (parts: Option<(String, Vec<u8>, Vec<u8>)>)
    ensures
        parts is Some <==> msgpack_block(bytes@) is Some,
        parts matches Some(p) ==> (p.0@, p.1@, p.2@) == msgpack_block(bytes@)->0,
{
    rmp_serde::from_read::<&[u8], (String, Vec<u8>, Vec<u8>)>(bytes.as_slice()).ok()
}

/// `regex::Regex::new` and `Regex::is_match`.
#[verifier::external_body]
fn regex_is_match(pattern: &str, haystack: &str) -> (found: Option<bool>)
    ensures
        found == regex_match(pattern@, haystack@),
{
    match regex::Regex::new(pattern) {
        Ok(re) => Some(re.is_match(haystack)),
        Err(_) => None,
    }
}

/// An encrypted block: the name of the algorithm, the nonce and the
/// ciphertext.
#[derive(Debug, Clone, PartialEq, Eq)]
pub struct EncryptedCryptBlock {
    pub algorithm: String,
    pub nonce: Vec<u8>,
    pub ciphertext: Vec<u8>,
}

/// What an [`EncryptedCryptBlock`] is in contracts.
pub ghost struct EncryptedCryptBlockView {
    pub algorithm: Seq<char>,
    pub nonce: Seq<u8>,
    pub ciphertext: Seq<u8>,
}

impl View for EncryptedCryptBlock {
    type V = EncryptedCryptBlockView;

    open spec fn view(&self) -> EncryptedCryptBlockView {
        EncryptedCryptBlockView {
            algorithm: self.algorithm@,
            nonce: self.nonce@,
            ciphertext: self.ciphertext@,
        }
    }
}

/// The base64 text of an armored block: what stands between the begin marker
/// with its two dots and the end marker, where the text begins with the begin
/// marker in any case of letters and is long enough for both; the whole text
/// otherwise.
pub open spec fn armor_body(input: Seq<char>) -> Seq<char> {
    let head = BEGIN_CRYPT_STR@.len() + BEGIN_ENCRYPTED_CRYPT_ENCRYPTION_MARKER_STR@.len();
    let tail = END_CRYPT_STR@.len();
    if input.len() >= head + tail && str_uppercase(input.take(BEGIN_CRYPT_STR@.len() as int))
        == BEGIN_CRYPT_STR@ {
        input.subrange(head as int, input.len() - tail)
    } else {
        input
    }
}

/// The block that an armored text holds, or why it holds none.
pub open spec fn unarmor_spec(input: Seq<char>) -> Result<EncryptedCryptBlockView, ParseError> {
    match base64_bytes(armor_body(input)) {
        None => Err(ParseError::Base64Decode),
        Some(bytes) => match msgpack_block(bytes) {
            None => Err(ParseError::MessagePackDecode),
            Some(parts) => Ok(
                EncryptedCryptBlockView { algorithm: parts.0, nonce: parts.1, ciphertext: parts.2 },
            ),
        },
    }
}

/// The armor of packed bytes.
pub open spec fn armor_spec(packed: Seq<u8>) -> Seq<char> {
    BEGIN_CRYPT_STR@ + BEGIN_ENCRYPTED_CRYPT_ENCRYPTION_MARKER_STR@ + base64_text(packed)
        + END_CRYPT_STR@
}

fn unarmor(input: &Vec<char>) -> (r: Result<EncryptedCryptBlock, ParseError>)
    ensures
        r is Ok <==> unarmor_spec(input@) is Ok,
        r is Ok ==> r->Ok_0@ == unarmor_spec(input@)->Ok_0,
        r is Err ==> r->Err_0 == unarmor_spec(input@)->Err_0,
{
    let begin = chars_of(BEGIN_CRYPT_STR);
    let marker = chars_of(BEGIN_ENCRYPTED_CRYPT_ENCRYPTION_MARKER_STR);
    let end = chars_of(END_CRYPT_STR);
    let mut body: Vec<char> = slice_of(input, 0, input.len());
    assert(body@ =~= input@);
    if begin.len() <= usize::MAX - marker.len() && begin.len() + marker.len() <= usize::MAX
        - end.len() {
        let head = begin.len() + marker.len();
        if input.len() >= head + end.len() {
            let start = slice_of(input, 0, begin.len());
            assert(start@ =~= input@.take(begin.len() as int));
            if same_chars(&uppercase(&start), &begin) {
                body = slice_of(input, head, input.len() - end.len());
            }
        }
    }
    assert(body@ == armor_body(input@));
    let text = string_of(&body);
    match base64_decode(text.as_str()) {
        None => Err(ParseError::Base64Decode),
        Some(bytes) => match msgpack_decode(&bytes) {
            None => Err(ParseError::MessagePackDecode),
            Some(parts) => Ok(
                EncryptedCryptBlock { algorithm: parts.0, nonce: parts.1, ciphertext: parts.2 },
            ),
        },
    }
}

impl EncryptedCryptBlock {
    /// The block that an armored text holds, or why it holds none.
    pub fn from_str(input: &str) -> (r: Result<EncryptedCryptBlock, ParseError>)
        ensures
            r is Ok <==> unarmor_spec(input@) is Ok,
            r is Ok ==> r->Ok_0@ == unarmor_spec(input@)->Ok_0,
            r is Err ==> r->Err_0 == unarmor_spec(input@)->Err_0,
    {
        unarmor(&chars_of(input))
    }

    /// The block as armored text: packed, in base64, between the markers.
    pub fn to_ascii_armor(&self) -> (r: Result<String, EncryptedCryptEncodingError>)
        ensures
            match msgpack_bytes(self@.algorithm, self@.nonce, self@.ciphertext) {
                Some(packed) => r is Ok && r->Ok_0@ == armor_spec(packed),
                None => r == Err::<String, _>(EncryptedCryptEncodingError::MessagePackEncode),
            },
    {
        match msgpack_encode(&self.algorithm, &self.nonce, &self.ciphertext) {
            None => Err(EncryptedCryptEncodingError::MessagePackEncode),
            Some(packed) => {
                let mut out = String::new();
                out.append(BEGIN_CRYPT_STR);
                out.append(BEGIN_ENCRYPTED_CRYPT_ENCRYPTION_MARKER_STR);
                out.append(base64_encode(&packed).as_str());
                out.append(END_CRYPT_STR);
                Ok(out)
            },
        }
    }
}

/// A part of a file: text that stays as it is, a block to encrypt, or an
/// encrypted block.
#[derive(Debug, Clone, PartialEq, Eq)]
pub enum Block {
    Plaintext(String),
    UnencryptedCryptBlock(String),
    EncryptedCryptBlock(EncryptedCryptBlock),
}

/// What a [`Block`] is in contracts.
pub ghost enum BlockView {
    Plaintext(Seq<char>),
    UnencryptedCryptBlock(Seq<char>),
    EncryptedCryptBlock(EncryptedCryptBlockView),
}

impl View for Block {
    type V = BlockView;

    open spec fn view(&self) -> BlockView {
        match self {
            Block::Plaintext(text) => BlockView::Plaintext(text@),
            Block::UnencryptedCryptBlock(text) => BlockView::UnencryptedCryptBlock(text@),
            Block::EncryptedCryptBlock(block) => BlockView::EncryptedCryptBlock(block@),
        }
    }
}

impl DeepView for Block {
    type V = BlockView;

    open spec fn deep_view(&self) -> BlockView {
        self@
    }
}

impl Block {
    /// Whether the block is an encrypted one.
    pub fn is_encrypted(&self) -> (r: bool)
        ensures
            r == (self@ is EncryptedCryptBlock),
    {
        match self {
            Block::Plaintext(_) => false,
            Block::UnencryptedCryptBlock(_) => false,
            Block::EncryptedCryptBlock(_) => true,
        }
    }
}

/// A file as its blocks, in their order.
#[derive(Debug, Clone, PartialEq, Eq)]
pub struct CryptFile {
    pub blocks: Vec<Block>,
}

impl View for CryptFile {
    type V = Seq<BlockView>;

    open spec fn view(&self) -> Seq<BlockView> {
        self.blocks.deep_view()
    }
}

/// The block that stands between a begin marker and an end marker: an
/// encrypted one where the text begins with two dots, else a block to encrypt
/// with the text without the white space around it.
pub open spec fn crypt_block_spec(inner: Seq<char>) -> Result<BlockView, ParseError> {
    let dots = BEGIN_ENCRYPTED_CRYPT_ENCRYPTION_MARKER_STR@;
    if occurs_at(inner, dots, 0) {
        match unarmor_spec(inner.skip(dots.len() as int)) {
            Ok(block) => Ok(BlockView::EncryptedCryptBlock(block)),
            Err(fault) => Err(fault),
        }
    } else {
        Ok(BlockView::UnencryptedCryptBlock(trim_spec(inner)))
    }
}

/// The blocks from the `k`-th pair of markers on, behind the blocks `done`.
/// `prev_end` is the place of the end marker before, or 0 for the first pair.
/// The text between two blocks is a plain block.
pub open spec fn blocks_from(
    contents: Seq<char>,
    starts: Seq<int>,
    ends: Seq<int>,
    k: int,
    prev_end: int,
    done: Seq<BlockView>,
) -> Result<Seq<BlockView>, ParseError>
    decreases starts.len() - k,
{
    if k < 0 || k >= starts.len() || k >= ends.len() {
        Ok(done)
    } else {
        let s = starts[k];
        let e = ends[k];
        if e < s + BEGIN_CRYPT_STR@.len() {
            Err(ParseError::EndBeforeBegin(0))
        } else if prev_end != 0 && s < prev_end + END_CRYPT_STR@.len() {
            Err(ParseError::BeginBeforeEnd(0))
        } else {
            let before = if prev_end != 0 {
                done.push(
                    BlockView::Plaintext(contents.subrange(prev_end + END_CRYPT_STR@.len(), s)),
                )
            } else {
                done
            };
            match crypt_block_spec(contents.subrange(s + BEGIN_CRYPT_STR@.len(), e)) {
                Err(fault) => Err(fault),
                Ok(block) => blocks_from(contents, starts, ends, k + 1, e, before.push(block)),
            }
        }
    }
}

/// The blocks of a text, or the first fault in it. The begin markers and the
/// end markers are paired in their order. Text before the first block is a
/// plain block; text behind the last block is left out.
pub open spec fn from_str_spec(contents: Seq<char>) -> Result<Seq<BlockView>, ParseError> {
    let starts = occurrences(contents, BEGIN_CRYPT_STR@);
    let ends = occurrences(contents, END_CRYPT_STR@);
    if starts.len() != ends.len() {
        Err(ParseError::MismatchNumStartEndCryptBlocks)
    } else {
        let first = if starts.len() > 0 && starts[0] != 0 {
            seq![BlockView::Plaintext(contents.take(starts[0]))]
        } else {
            Seq::empty()
        };
        blocks_from(contents, starts, ends, 0, 0, first)
    }
}

fn crypt_block(inner: &Vec<char>) -> (r: Result<Block, ParseError>)
    ensures
        r is Ok <==> crypt_block_spec(inner@) is Ok,
        r is Ok ==> r->Ok_0@ == crypt_block_spec(inner@)->Ok_0,
        r is Err ==> r->Err_0 == crypt_block_spec(inner@)->Err_0,
{
    let dots = chars_of(BEGIN_ENCRYPTED_CRYPT_ENCRYPTION_MARKER_STR);
    if matches_at(inner, &dots, 0) {
        let rest = slice_of(inner, dots.len(), inner.len());
        assert(rest@ =~= inner@.skip(dots.len() as int));
        match unarmor(&rest) {
            Ok(block) => Ok(Block::EncryptedCryptBlock(block)),
            Err(fault) => Err(fault),
        }
    } else {
        Ok(Block::UnencryptedCryptBlock(string_of(&trim(inner))))
    }
}

impl CryptFile {
    /// Whether a text holds a crypt block: whether [`IS_CRYPT_FILE_PATTERN`]
    /// matches in it.
    pub fn is_crypt_file(contents: &str) -> (r: bool)
        ensures
            r == (regex_match(IS_CRYPT_FILE_PATTERN@, contents@) == Some(true)),
    {
        match regex_is_match(IS_CRYPT_FILE_PATTERN, contents) {
            Some(found) => found,
            None => false,
        }
    }

    /// Whether the file holds a block that is still to encrypt.
    pub fn has_unencrypted_crypt_blocks(&self) -> (r: bool)
        ensures
            r == exists|i: int| 0 <= i < self@.len() && (#[trigger] self@[i]) is UnencryptedCryptBlock,
    {
        let mut i: usize = 0;
        while i < self.blocks.len()
            invariant
                i <= self.blocks.len(),
                forall|j: int| 0 <= j < i ==> !((#[trigger] self@[j]) is UnencryptedCryptBlock),
            decreases self.blocks.len() - i,
        {
            match &self.blocks[i] {
                Block::UnencryptedCryptBlock(_) => {
                    assert(self@[i as int] is UnencryptedCryptBlock);
                    return true;
                },
                _ => {
                    assert(!(self@[i as int] is UnencryptedCryptBlock));
                },
            }
            i = i + 1;
        }
        false
    }

    /// Parses a text into its blocks.
    pub fn from_str(contents: &str) -> (r: Result<CryptFile, ParseError>)
        ensures
            r is Ok <==> from_str_spec(contents@) is Ok,
            r is Ok ==> r->Ok_0@ == from_str_spec(contents@)->Ok_0,
            r is Err ==> r->Err_0 == from_str_spec(contents@)->Err_0,
    {
        let text = chars_of(contents);
        let begin = chars_of(BEGIN_CRYPT_STR);
        let end = chars_of(END_CRYPT_STR);
        let starts = find_all(&text, &begin);
        let ends = find_all(&text, &end);
        let ghost spec_starts = occurrences(contents@, BEGIN_CRYPT_STR@);
        let ghost spec_ends = occurrences(contents@, END_CRYPT_STR@);
        assert(places(starts@).len() == starts.len());
        assert(places(ends@).len() == ends.len());
        if starts.len() != ends.len() {
            return Err(ParseError::MismatchNumStartEndCryptBlocks);
        }
        let mut blocks: Vec<Block> = Vec::new();
        if starts.len() > 0 && starts[0] != 0 {
            assert(places(starts@)[0] == starts[0]);
            assert(starts[0] + begin.len() <= text.len());
            let plain = slice_of(&text, 0, starts[0]);
            assert(plain@ =~= contents@.take(starts[0] as int));
            blocks.push(Block::Plaintext(string_of(&plain)));
            assert(blocks.deep_view() =~= seq![BlockView::Plaintext(contents@.take(starts[0] as int))]);
        } else {
            assert(blocks.deep_view() =~= Seq::<BlockView>::empty());
            if starts.len() > 0 {
                assert(places(starts@)[0] == starts[0]);
            }
        }
        let mut prev_end: usize = 0;
        let mut k: usize = 0;
        while k < starts.len()
            invariant
                k <= starts.len(),
                starts.len() == ends.len(),
                text@ == contents@,
                begin@ == BEGIN_CRYPT_STR@,
                end@ == END_CRYPT_STR@,
                places(starts@) == spec_starts,
                places(ends@) == spec_ends,
                spec_starts == occurrences(contents@, BEGIN_CRYPT_STR@),
                spec_ends == occurrences(contents@, END_CRYPT_STR@),
                forall|i: int| 0 <= i < starts.len() ==> #[trigger] starts[i] + begin.len() <= text.len(),
                forall|i: int| 0 <= i < ends.len() ==> #[trigger] ends[i] + end.len() <= text.len(),
                prev_end + end.len() <= text.len() || prev_end == 0,
                from_str_spec(contents@) == blocks_from(
                    contents@,
                    spec_starts,
                    spec_ends,
                    k as int,
                    prev_end as int,
                    blocks.deep_view(),
                ),
            decreases starts.len() - k,
        {
            let s = starts[k];
            let e = ends[k];
            assert(places(starts@)[k as int] == s);
            assert(places(ends@)[k as int] == e);
            assert(s + begin.len() <= text.len());
            assert(e + end.len() <= text.len());
            if e < s + begin.len() {
                return Err(ParseError::EndBeforeBegin(0));
            }
            if prev_end != 0 && s < prev_end + end.len() {
                return Err(ParseError::BeginBeforeEnd(0));
            }
            let ghost done = blocks.deep_view();
            if prev_end != 0 {
                let plain = slice_of(&text, prev_end + end.len(), s);
                blocks.push(Block::Plaintext(string_of(&plain)));
                assert(blocks.deep_view() =~= done.push(
                    BlockView::Plaintext(contents@.subrange(prev_end + end.len(), s as int)),
                ));
            }
            let ghost before = blocks.deep_view();
            let inner = slice_of(&text, s + begin.len(), e);
            match crypt_block(&inner) {
                Err(fault) => {
                    return Err(fault);
                },
                Ok(block) => {
                    blocks.push(block);
                    assert(blocks.deep_view() =~= before.push(block@));
                },
            }
            prev_end = e;
            k = k + 1;
        }
        Ok(CryptFile { blocks })
    }
}

/// A block as it stands in a file, or nothing where an encrypted block
/// cannot be packed.
pub open spec fn render_block(block: BlockView) -> Option<Seq<char>> {
    match block {
        BlockView::Plaintext(text) => Some(text),
        BlockView::UnencryptedCryptBlock(text) => Some(
            BEGIN_CRYPT_STR@ + seq!['\n'] + text + seq!['\n'] + END_CRYPT_STR@,
        ),
        BlockView::EncryptedCryptBlock(block) => match msgpack_bytes(
            block.algorithm,
            block.nonce,
            block.ciphertext,
        ) {
            Some(packed) => Some(armor_spec(packed)),
            None => None,
        },
    }
}

/// The blocks as they stand in a file, one after the other, or nothing where
/// one of them cannot be written.
pub open spec fn render_spec(blocks: Seq<BlockView>) -> Option<Seq<char>>
    decreases blocks.len(),
{
    if blocks.len() == 0 {
        Some(Seq::empty())
    } else {
        match (render_spec(blocks.drop_last()), render_block(blocks.last())) {
            (Some(before), Some(last)) => Some(before + last),
            _ => None,
        }
    }
}

impl Block {
    /// The block as it stands in a file.
    pub fn render(&self) -> (r: Result<String, EncryptedCryptEncodingError>)
        ensures
            r is Ok <==> render_block(self@) is Some,
            r is Ok ==> r->Ok_0@ == render_block(self@)->0,
            r is Err ==> r->Err_0 == EncryptedCryptEncodingError::MessagePackEncode,
    {
        match self {
            Block::Plaintext(text) => Ok(text.clone()),
            Block::UnencryptedCryptBlock(text) => {
                proof {
                    reveal_strlit("\n");
                    assert("\n"@ =~= seq!['\n']);
                }
                let mut out = String::new();
                out.append(BEGIN_CRYPT_STR);
                out.append("\n");
                out.append(text.as_str());
                out.append("\n");
                out.append(END_CRYPT_STR);
                Ok(out)
            },
            Block::EncryptedCryptBlock(block) => block.to_ascii_armor(),
        }
    }
}

impl CryptFile {
    /// The file as text: its blocks as they stand in a file, one after the
    /// other.
    pub fn render(&self) -> (r: Result<String, EncryptedCryptEncodingError>)
        ensures
            r is Ok <==> render_spec(self@) is Some,
            r is Ok ==> r->Ok_0@ == render_spec(self@)->0,
            r is Err ==> r->Err_0 == EncryptedCryptEncodingError::MessagePackEncode,
    {
        let mut out = String::new();
        let mut i: usize = 0;
        while i < self.blocks.len()
            invariant
                i <= self.blocks.len(),
                render_spec(self@.take(i as int)) == Some(out@),
            decreases self.blocks.len() - i,
        {
            proof {
                assert(self@.take(i + 1).drop_last() =~= self@.take(i as int));
                assert(self@.take(i + 1).last() == self.blocks[i as int]@);
            }
            match self.blocks[i].render() {
                Ok(piece) => {
                    out.append(piece.as_str());
                },
                Err(fault) => {
                    proof {
                        lemma_render_prefix(self@, i + 1);
                    }
                    return Err(fault);
                },
            }
            i = i + 1;
        }
        proof {
            assert(self@.take(self.blocks.len() as int) =~= self@);
        }
        Ok(out)
    }
}

/// Where the first blocks of a file cannot be written, the file cannot.
pub proof fn lemma_render_prefix(blocks: Seq<BlockView>, n: int)
    requires
        0 <= n <= blocks.len(),
        render_spec(blocks.take(n)) is None,
    ensures
        render_spec(blocks) is None,
    decreases blocks.len() - n,
{
    if n < blocks.len() {
        assert(blocks.take(n + 1).drop_last() =~= blocks.take(n));
        lemma_render_prefix(blocks, n + 1);
    } else {
        assert(blocks.take(n) =~= blocks);
    }
}

} // verus!
