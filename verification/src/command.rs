//! The EMV command vocabulary and the line parser.
//!
//! A [`Command`] is one fully decoded EMV instruction: every numeric and
//! byte field has already been converted from hex text, so a constructed
//! value carries no raw text.  [`Command::from_str`] turns one line of text
//! into a `Command` or reports why it could not; its result is pinned, for
//! every input, to the spec-level parser [`spec_parse`].

use vstd::prelude::*;
use vstd::string::*;
use crate::hexstr::{
    hex_decode,
    hex_uint_val,
    parse_hex_u16,
    parse_hex_u8,
    spec_hex_decode,
    valid_hex_seq,
    valid_hex_uint,
};
use crate::text::{lower_seq, lower_string, spec_tokens, str_eq, tokenize, views_of};

verus! {

/// The cryptogram a GENERATE AC command asks the card to compute.
#[derive(Clone, Copy, Debug, PartialEq, Eq, Structural)]
pub enum CryptogramType {
    /// Application Authentication Cryptogram: the transaction is declined.
    AAC,
    /// Transaction Certificate: the transaction is approved offline.
    TC,
    /// Authorisation Request Cryptogram: the transaction goes online.
    ARQC,
}

/// One EMV instruction, with its arguments already decoded from hex text.
#[derive(Debug, PartialEq, Eq)]
pub enum Command {
    /// Select the card application named by an AID.
    Select { application: Vec<u8> },
    /// Ask the card for its processing options.
    GetProcessingOptions,
    /// Read one record of a card file.
    ReadRecord { record: u8, sfi: u8 },
    /// Ask the card to generate an application cryptogram.
    GenerateAC { cryptogram_type: CryptogramType, cdol: Option<Vec<u8>> },
    /// Write a data object to the card.
    PutData { tag: u16, value: Vec<u8> },
    /// Read a data object from the card.
    GetData { tag: u16 },
    /// Present a PIN block for verification.
    Verify { pin: Vec<u8> },
    /// Reset the PIN try counter.
    PinUnblock,
    /// Set a new PIN block.
    PinChange { pin: Vec<u8> },
}

/// Why a line could not be parsed.
#[derive(Debug, PartialEq, Eq)]
pub enum ParseError {
    /// The first token is not one of the nine recognized command names;
    /// it is carried lower-cased, so a caller can report it verbatim.
    UnrecognizedCommand(String),
    /// A required positional token is absent.
    MissingArgument,
    /// A token is present but is not valid hex text, names no cryptogram
    /// type, or exceeds the width of the expected integer.
    InvalidArgument,
}

/// The mathematical value of a [`Command`]: byte vectors become sequences.
pub enum SpecCommand {
    Select { application: Seq<u8> },
    GetProcessingOptions,
    ReadRecord { record: u8, sfi: u8 },
    GenerateAC { cryptogram_type: CryptogramType, cdol: Option<Seq<u8>> },
    PutData { tag: u16, value: Seq<u8> },
    GetData { tag: u16 },
    Verify { pin: Seq<u8> },
    PinUnblock,
    PinChange { pin: Seq<u8> },
}

/// The mathematical value of a [`ParseError`].
pub enum SpecError {
    UnrecognizedCommand(Seq<char>),
    MissingArgument,
    InvalidArgument,
}

impl View for Command {
    type V = SpecCommand;

    open spec fn view(&self) -> SpecCommand {
        match self {
            Command::Select { application } => SpecCommand::Select { application: application@ },
            Command::GetProcessingOptions => SpecCommand::GetProcessingOptions,
            Command::ReadRecord { record, sfi } => SpecCommand::ReadRecord {
                record: *record,
                sfi: *sfi,
            },
            Command::GenerateAC { cryptogram_type, cdol } => SpecCommand::GenerateAC {
                cryptogram_type: *cryptogram_type,
                cdol: match cdol {
                    Some(v) => Some(v@),
                    None => None,
                },
            },
            Command::PutData { tag, value } => SpecCommand::PutData { tag: *tag, value: value@ },
            Command::GetData { tag } => SpecCommand::GetData { tag: *tag },
            Command::Verify { pin } => SpecCommand::Verify { pin: pin@ },
            Command::PinUnblock => SpecCommand::PinUnblock,
            Command::PinChange { pin } => SpecCommand::PinChange { pin: pin@ },
        }
    }
}

impl View for ParseError {
    type V = SpecError;

    open spec fn view(&self) -> SpecError {
        match self {
            ParseError::UnrecognizedCommand(name) => SpecError::UnrecognizedCommand(name@),
            ParseError::MissingArgument => SpecError::MissingArgument,
            ParseError::InvalidArgument => SpecError::InvalidArgument,
        }
    }
}

/// Whether a lower-cased name token is one of the nine command keywords.
pub open spec fn is_keyword(name: Seq<char>) -> bool {
    name == "select"@ || name == "get_processing_options"@ || name == "generate_ac"@ || name
        == "get_data"@ || name == "put_data"@ || name == "read_record"@ || name == "verify"@
        || name == "pin_unblock"@ || name == "pin_change"@
}

/// The cryptogram type a token names, compared without regard to case;
/// `None` for a token that names no cryptogram type.
pub open spec fn spec_cryptogram_type(tok: Seq<char>) -> Option<CryptogramType> {
    let t = lower_seq(tok);
    if t == "aac"@ {
        Some(CryptogramType::AAC)
    } else if t == "tc"@ {
        Some(CryptogramType::TC)
    } else if t == "arqc"@ {
        Some(CryptogramType::ARQC)
    } else {
        None
    }
}

/// Positional byte-sequence argument: token `k` decoded from hex, a missing
/// token and an invalid one reported apart.
pub open spec fn arg_bytes(toks: Seq<Seq<char>>, k: int) -> Result<Seq<u8>, SpecError> {
    if toks.len() <= k {
        Err(SpecError::MissingArgument)
    } else if !valid_hex_seq(toks[k]) {
        Err(SpecError::InvalidArgument)
    } else {
        Ok(spec_hex_decode(toks[k]))
    }
}

/// Positional bounded-integer argument: token `k` read as base-16, refused
/// when missing, not hex, or wider than `max` allows.
pub open spec fn arg_uint(toks: Seq<Seq<char>>, k: int, max: int) -> Result<int, SpecError> {
    if toks.len() <= k {
        Err(SpecError::MissingArgument)
    } else if !valid_hex_uint(toks[k], max) {
        Err(SpecError::InvalidArgument)
    } else {
        Ok(hex_uint_val(toks[k]))
    }
}

/// The parser, as a total function from the tokens of a line to the
/// command they denote or the error they earn.  Extra tokens beyond the
/// ones a command consumes are ignored, as are runs of whitespace; an
/// empty line has no name token and is reported as an unrecognized,
/// empty command name.
pub open spec fn spec_parse_tokens(toks: Seq<Seq<char>>) -> Result<SpecCommand, SpecError> {
    if toks.len() == 0 {
        Err(SpecError::UnrecognizedCommand(Seq::empty()))
    } else {
        let name = lower_seq(toks[0]);
        if name == "select"@ {
            match arg_bytes(toks, 1) {
                Ok(application) => Ok(SpecCommand::Select { application }),
                Err(e) => Err(e),
            }
        } else if name == "get_processing_options"@ {
            Ok(SpecCommand::GetProcessingOptions)
        } else if name == "generate_ac"@ {
            if toks.len() <= 1 {
                Err(SpecError::MissingArgument)
            } else {
                match spec_cryptogram_type(toks[1]) {
                    None => Err(SpecError::InvalidArgument),
                    Some(cryptogram_type) => if toks.len() > 2 {
                        if valid_hex_seq(toks[2]) {
                            Ok(
                                SpecCommand::GenerateAC {
                                    cryptogram_type,
                                    cdol: Some(spec_hex_decode(toks[2])),
                                },
                            )
                        } else {
                            Err(SpecError::InvalidArgument)
                        }
                    } else {
                        Ok(SpecCommand::GenerateAC { cryptogram_type, cdol: None })
                    },
                }
            }
        } else if name == "get_data"@ {
            match arg_uint(toks, 1, 0xFFFF) {
                Ok(tag) => Ok(SpecCommand::GetData { tag: tag as u16 }),
                Err(e) => Err(e),
            }
        } else if name == "put_data"@ {
            match arg_uint(toks, 1, 0xFFFF) {
                Ok(tag) => match arg_bytes(toks, 2) {
                    Ok(value) => Ok(SpecCommand::PutData { tag: tag as u16, value }),
                    Err(e) => Err(e),
                },
                Err(e) => Err(e),
            }
        } else if name == "read_record"@ {
            match arg_uint(toks, 1, 0xFF) {
                Ok(record) => match arg_uint(toks, 2, 0xFF) {
                    Ok(sfi) => Ok(
                        SpecCommand::ReadRecord { record: record as u8, sfi: sfi as u8 },
                    ),
                    Err(e) => Err(e),
                },
                Err(e) => Err(e),
            }
        } else if name == "verify"@ {
            match arg_bytes(toks, 1) {
                Ok(pin) => Ok(SpecCommand::Verify { pin }),
                Err(e) => Err(e),
            }
        } else if name == "pin_unblock"@ {
            Ok(SpecCommand::PinUnblock)
        } else if name == "pin_change"@ {
            match arg_bytes(toks, 1) {
                Ok(pin) => Ok(SpecCommand::PinChange { pin }),
                Err(e) => Err(e),
            }
        } else {
            Err(SpecError::UnrecognizedCommand(name))
        }
    }
}

/// What parsing one line of text yields, for every line.
pub open spec fn spec_parse(line: Seq<char>) -> Result<SpecCommand, SpecError> {
    spec_parse_tokens(spec_tokens(line))
}

/// Whether an executable parse result carries exactly the value the spec
/// parser assigns.
pub open spec fn parse_result_matches(
    r: Result<Command, ParseError>,
    m: Result<SpecCommand, SpecError>,
) -> bool {
    match (r, m) {
        (Ok(c), Ok(mc)) => c@ == mc,
        (Err(e), Err(me)) => e@ == me,
        _ => false,
    }
}

/// Decodes positional token `k` as a byte sequence.
fn get_bytes_arg(toks: &Vec<String>, k: usize) -> (r: Result<Vec<u8>, ParseError>)
    ensures
        (match (r, arg_bytes(views_of(toks@), k as int)) {
            (Ok(v), Ok(b)) => v@ == b,
            (Err(e), Err(me)) => e@ == me,
            _ => false,
        }),
{
    if toks.len() <= k {
        Err(ParseError::MissingArgument)
    } else {
        match hex_decode(toks[k].as_str()) {
            Some(v) => Ok(v),
            None => Err(ParseError::InvalidArgument),
        }
    }
}

/// Reads positional token `k` as a 16-bit unsigned integer in hex.
fn get_u16_arg(toks: &Vec<String>, k: usize) -> (r: Result<u16, ParseError>)
    ensures
        (match (r, arg_uint(views_of(toks@), k as int, 0xFFFF)) {
            (Ok(v), Ok(t)) => v as int == t,
            (Err(e), Err(me)) => e@ == me,
            _ => false,
        }),
{
    if toks.len() <= k {
        Err(ParseError::MissingArgument)
    } else {
        match parse_hex_u16(toks[k].as_str()) {
            Some(v) => Ok(v),
            None => Err(ParseError::InvalidArgument),
        }
    }
}

/// Reads positional token `k` as an 8-bit unsigned integer in hex.
fn get_u8_arg(toks: &Vec<String>, k: usize) -> (r: Result<u8, ParseError>)
    ensures
        (match (r, arg_uint(views_of(toks@), k as int, 0xFF)) {
            (Ok(v), Ok(t)) => v as int == t,
            (Err(e), Err(me)) => e@ == me,
            _ => false,
        }),
{
    if toks.len() <= k {
        Err(ParseError::MissingArgument)
    } else {
        match parse_hex_u8(toks[k].as_str()) {
            Some(v) => Ok(v),
            None => Err(ParseError::InvalidArgument),
        }
    }
}

/// Looks a token up in the cryptogram-type vocabulary, without regard
/// to case.
fn cryptogram_type_of(tok: &str) -> (r: Option<CryptogramType>)
    ensures
        r == spec_cryptogram_type(tok@),
{
    let t = lower_string(tok);
    if str_eq(t.as_str(), "aac") {
        Some(CryptogramType::AAC)
    } else if str_eq(t.as_str(), "tc") {
        Some(CryptogramType::TC)
    } else if str_eq(t.as_str(), "arqc") {
        Some(CryptogramType::ARQC)
    } else {
        None
    }
}

impl Command {
    /// Parses one line of text into a command.
    ///
    /// The line is split into whitespace-delimited tokens; the first is the
    /// command name, compared against the nine keywords without regard to
    /// case, and the rest are positional arguments decoded from hex text.
    /// The result is exactly what [`spec_parse`] assigns to the line: the
    /// fully decoded command on success, and otherwise which of the three
    /// failures the line earned.
    pub fn from_str(str: String) -> (r: Result<Command, ParseError>)
        ensures
            parse_result_matches(r, spec_parse(str@)),
    {
        let toks = tokenize(str.as_str());
        if toks.len() == 0 {
            return Err(ParseError::UnrecognizedCommand(String::new()));
        }
        let name = lower_string(toks[0].as_str());
        if str_eq(name.as_str(), "select") {
            match get_bytes_arg(&toks, 1) {
                Ok(application) => Ok(Command::Select { application }),
                Err(e) => Err(e),
            }
        } else if str_eq(name.as_str(), "get_processing_options") {
            Ok(Command::GetProcessingOptions)
        } else if str_eq(name.as_str(), "generate_ac") {
            if toks.len() <= 1 {
                Err(ParseError::MissingArgument)
            } else {
                match cryptogram_type_of(toks[1].as_str()) {
                    None => Err(ParseError::InvalidArgument),
                    Some(cryptogram_type) => {
                        if toks.len() > 2 {
                            match hex_decode(toks[2].as_str()) {
                                Some(cdol) => Ok(
                                    Command::GenerateAC { cryptogram_type, cdol: Some(cdol) },
                                ),
                                None => Err(ParseError::InvalidArgument),
                            }
                        } else {
                            Ok(Command::GenerateAC { cryptogram_type, cdol: None })
                        }
                    },
                }
            }
        } else if str_eq(name.as_str(), "get_data") {
            match get_u16_arg(&toks, 1) {
                Ok(tag) => Ok(Command::GetData { tag }),
                Err(e) => Err(e),
            }
        } else if str_eq(name.as_str(), "put_data") {
            match get_u16_arg(&toks, 1) {
                Ok(tag) => match get_bytes_arg(&toks, 2) {
                    Ok(value) => Ok(Command::PutData { tag, value }),
                    Err(e) => Err(e),
                },
                Err(e) => Err(e),
            }
        } else if str_eq(name.as_str(), "read_record") {
            match get_u8_arg(&toks, 1) {
                Ok(record) => match get_u8_arg(&toks, 2) {
                    Ok(sfi) => Ok(Command::ReadRecord { record, sfi }),
                    Err(e) => Err(e),
                },
                Err(e) => Err(e),
            }
        } else if str_eq(name.as_str(), "verify") {
            match get_bytes_arg(&toks, 1) {
                Ok(pin) => Ok(Command::Verify { pin }),
                Err(e) => Err(e),
            }
        } else if str_eq(name.as_str(), "pin_unblock") {
            Ok(Command::PinUnblock)
        } else if str_eq(name.as_str(), "pin_change") {
            match get_bytes_arg(&toks, 1) {
                Ok(pin) => Ok(Command::PinChange { pin }),
                Err(e) => Err(e),
            }
        } else {
            Err(ParseError::UnrecognizedCommand(name))
        }
    }
}

} // verus!
