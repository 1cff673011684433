//! What can be wrong with a file that holds crypt blocks.

use vstd::prelude::*;
use crate::text::{chars_of, decimal, decimal_spec, extend, string_of};

verus! {

/// Why a text is not a well-formed crypt file. The number is that of the line
/// at which the fault shows, the first line being line 1; with a block that
/// ends before it begins, or begins before the last one has ended, it is 0.
#[derive(Debug, Clone, Copy, PartialEq, Eq, Structural)]
pub enum ParseError {
    /// The header of a crypt block does not hold two parts with one `;`
    /// between them.
    InvalidHeader(usize),
    /// A crypt block has a second header.
    MultipleHeaders(usize),
    /// A header ends where no crypt block has begun.
    EndHeaderWithNoStart(usize),
    /// A crypt block holds nothing but white space.
    EmptyCryptBlock(usize),
    /// A crypt block ends where none has begun.
    EndWithNoStart(usize),
    /// The text ends inside a crypt block.
    StartWithNoEnd,
    /// A line holds more than a delimiter.
    DelimiterWithAdditionalText(usize),
    /// The text holds another number of begin markers than of end markers.
    MismatchNumStartEndCryptBlocks,
    /// A block ends before it begins.
    EndBeforeBegin(usize),
    /// A block begins before the one before it has ended.
    BeginBeforeEnd(usize),
    /// The text of an encrypted block is not base64.
    Base64Decode,
    /// The bytes of an encrypted block are not a packed block.
    MessagePackDecode,
}

/// Why an encrypted block cannot be written.
#[derive(Debug, Clone, Copy, PartialEq, Eq, Structural)]
pub enum EncryptedCryptEncodingError {
    /// The block could not be packed.
    MessagePackEncode,
}

impl ParseError {
    /// The line at which the fault shows, where the error names one.
    pub open spec fn line_spec(self) -> Option<usize> {
        match self {
            ParseError::InvalidHeader(line) => Some(line),
            ParseError::MultipleHeaders(line) => Some(line),
            ParseError::EndHeaderWithNoStart(line) => Some(line),
            ParseError::EmptyCryptBlock(line) => Some(line),
            ParseError::EndWithNoStart(line) => Some(line),
            ParseError::StartWithNoEnd => None,
            ParseError::DelimiterWithAdditionalText(line) => Some(line),
            ParseError::MismatchNumStartEndCryptBlocks => None,
            ParseError::EndBeforeBegin(line) => Some(line),
            ParseError::BeginBeforeEnd(line) => Some(line),
            ParseError::Base64Decode => None,
            ParseError::MessagePackDecode => None,
        }
    }

    /// The line at which the fault shows, where the error names one.
    #[verifier::when_used_as_spec(line_spec)]
    pub fn line(self) -> (r: Option<usize>)
        ensures
            r == self.line_spec(),
    {
        match self {
            ParseError::InvalidHeader(line) => Some(line),
            ParseError::MultipleHeaders(line) => Some(line),
            ParseError::EndHeaderWithNoStart(line) => Some(line),
            ParseError::EmptyCryptBlock(line) => Some(line),
            ParseError::EndWithNoStart(line) => Some(line),
            ParseError::StartWithNoEnd => None,
            ParseError::DelimiterWithAdditionalText(line) => Some(line),
            ParseError::MismatchNumStartEndCryptBlocks => None,
            ParseError::EndBeforeBegin(line) => Some(line),
            ParseError::BeginBeforeEnd(line) => Some(line),
            ParseError::Base64Decode => None,
            ParseError::MessagePackDecode => None,
        }
    }

    /// What the message says before the line number, or the whole message
    /// where the error names no line.
    pub open spec fn headline_spec(self) -> Seq<char> {
        match self {
            ParseError::InvalidHeader(_) => "CRYPT Header does not have right number of arguments at line "@,
            ParseError::MultipleHeaders(_) => "A CRYPT block cannot have more than 1 header at line "@,
            ParseError::EndHeaderWithNoStart(_) => "A CRYPT END Header was encountered with no start at line "@,
            ParseError::EmptyCryptBlock(_) => "A empty CRYPT block was encountered at line "@,
            ParseError::EndWithNoStart(_) => "A CRYPT END was encountered with no start at line "@,
            ParseError::StartWithNoEnd => "A CRYPT START was encountered with no end"@,
            ParseError::DelimiterWithAdditionalText(_) => "CRYPT block delimiters should only contain delimiters at line "@,
            ParseError::MismatchNumStartEndCryptBlocks => "The numbers of CRYPT BEGIN and CRYPT END differ"@,
            ParseError::EndBeforeBegin(_) => "A CRYPT END was encountered before its BEGIN at "@,
            ParseError::BeginBeforeEnd(_) => "A CRYPT BEGIN was encountered before the END of the block before at "@,
            ParseError::Base64Decode => "An encrypted CRYPT block is not base64"@,
            ParseError::MessagePackDecode => "An encrypted CRYPT block cannot be unpacked"@,
        }
    }

    fn headline(self) -> (r: &'static str)
        ensures
            r@ == self.headline_spec(),
    {
        match self {
            ParseError::InvalidHeader(_) => "CRYPT Header does not have right number of arguments at line ",
            ParseError::MultipleHeaders(_) => "A CRYPT block cannot have more than 1 header at line ",
            ParseError::EndHeaderWithNoStart(_) => "A CRYPT END Header was encountered with no start at line ",
            ParseError::EmptyCryptBlock(_) => "A empty CRYPT block was encountered at line ",
            ParseError::EndWithNoStart(_) => "A CRYPT END was encountered with no start at line ",
            ParseError::StartWithNoEnd => "A CRYPT START was encountered with no end",
            ParseError::DelimiterWithAdditionalText(_) => "CRYPT block delimiters should only contain delimiters at line ",
            ParseError::MismatchNumStartEndCryptBlocks => "The numbers of CRYPT BEGIN and CRYPT END differ",
            ParseError::EndBeforeBegin(_) => "A CRYPT END was encountered before its BEGIN at ",
            ParseError::BeginBeforeEnd(_) => "A CRYPT BEGIN was encountered before the END of the block before at ",
            ParseError::Base64Decode => "An encrypted CRYPT block is not base64",
            ParseError::MessagePackDecode => "An encrypted CRYPT block cannot be unpacked",
        }
    }

    /// The message of the error: what is wrong, and the line in decimal digits
    /// where the error names one.
    pub open spec fn message_spec(self) -> Seq<char> {
        match self.line_spec() {
            Some(line) => self.headline_spec() + decimal_spec(line as nat),
            None => self.headline_spec(),
        }
    }

    /// The message of the error.
    pub fn message(self) -> (r: String)
        ensures
            r@ == self.message_spec(),
    {
        let mut text = chars_of(self.headline());
        match self.line() {
            Some(line) => {
                let digits = decimal(line as u64);
                extend(&mut text, &digits);
            },
            None => {},
        }
        string_of(&text)
    }
}

} // verus!
