//! Laws of the parser, stated and proved once for all inputs.
//!
//! Each proof function here is a public statement about [`spec_parse`],
//! which [`crate::command::Command::from_str`] is proved to implement: a
//! hex-encoded round trip for every command shape, the unrecognized-name
//! failure for every name outside the keyword set, and determinism.

use vstd::prelude::*;
use crate::command::{
    arg_bytes,
    arg_uint,
    is_keyword,
    parse_result_matches,
    spec_cryptogram_type,
    spec_parse,
    Command,
    ParseError,
    SpecCommand,
    SpecError,
};
use crate::hexstr::{
    bytes_uint_val,
    lemma_hex_round_trip,
    lemma_hex_uint_of_encode,
    spec_hex_encode,
};
use crate::text::{
    is_space_char,
    lemma_tokens_prepend,
    lemma_tokens_single,
    lower_char,
    lower_seq,
    spec_tokens,
};

verus! {

/// Parsing is deterministic: two results that both satisfy the parser's
/// contract on the same line carry the same value.
pub proof fn lemma_parse_deterministic(
    line: Seq<char>,
    r1: Result<Command, ParseError>,
    r2: Result<Command, ParseError>,
)
    requires
        parse_result_matches(r1, spec_parse(line)),
        parse_result_matches(r2, spec_parse(line)),
    ensures
        r1 is Ok <==> r2 is Ok,
        r1 matches Ok(c1) ==> (r2 matches Ok(c2) && c1@ == c2@),
        r1 matches Err(e1) ==> (r2 matches Err(e2) && e1@ == e2@),
{
}

/// A line whose first token, folded to lower case, is none of the nine
/// command keywords fails with `UnrecognizedCommand` carrying that
/// lower-cased token.
pub proof fn lemma_unrecognized_command(line: Seq<char>)
    requires
        spec_tokens(line).len() > 0,
        !is_keyword(lower_seq(spec_tokens(line)[0])),
    ensures
        spec_parse(line) == Err::<SpecCommand, SpecError>(
            SpecError::UnrecognizedCommand(lower_seq(spec_tokens(line)[0])),
        ),
{
}

/// A keyword written in lower-case letters and underscores folds to
/// itself and contains no token separator.
proof fn lemma_plain_keyword(w: Seq<char>)
    requires
        forall|j: int| 0 <= j < w.len() ==> (97 <= w[j] as int <= 122) || w[j] == '_',
    ensures
        lower_seq(w) == w,
        forall|j: int| 0 <= j < w.len() ==> !is_space_char(w[j]),
{
    assert forall|j: int| 0 <= j < w.len() implies lower_seq(w)[j] == w[j] && !is_space_char(
        w[j],
    ) by {
        assert(!(65 <= w[j] as int && w[j] as int <= 90));
    }
    assert(lower_seq(w) =~= w);
}

/// `select` round trip: for any non-empty byte sequence, parsing
/// `select` followed by its hex encoding yields it back, decoded.
pub proof fn lemma_select_round_trip(b: Seq<u8>)
    requires
        b.len() > 0,
    ensures
        spec_parse("select"@ + seq![' '] + spec_hex_encode(b)) == Ok::<SpecCommand, SpecError>(
            SpecCommand::Select { application: b },
        ),
{
    reveal_strlit("select");
    let w = "select"@;
    let e = spec_hex_encode(b);
    lemma_hex_round_trip(b);
    lemma_plain_keyword(w);
    lemma_tokens_single(e);
    lemma_tokens_prepend(w, e);
    let toks = spec_tokens(w + seq![' '] + e);
    assert(toks.len() == 2 && toks[0] == w && toks[1] == e);
    assert(arg_bytes(toks, 1) == Ok::<Seq<u8>, SpecError>(b));
}

/// `get_processing_options` parses to the argument-less command.
pub proof fn lemma_get_processing_options_round_trip()
    ensures
        spec_parse("get_processing_options"@) == Ok::<SpecCommand, SpecError>(
            SpecCommand::GetProcessingOptions,
        ),
{
    reveal_strlit("get_processing_options");
    reveal_strlit("select");
    let w = "get_processing_options"@;
    lemma_plain_keyword(w);
    lemma_tokens_single(w);
}

/// `pin_unblock` parses to the argument-less command.
pub proof fn lemma_pin_unblock_round_trip()
    ensures
        spec_parse("pin_unblock"@) == Ok::<SpecCommand, SpecError>(SpecCommand::PinUnblock),
{
    reveal_strlit("pin_unblock");
    reveal_strlit("select");
    reveal_strlit("get_processing_options");
    reveal_strlit("generate_ac");
    reveal_strlit("get_data");
    reveal_strlit("put_data");
    reveal_strlit("read_record");
    reveal_strlit("verify");
    let w = "pin_unblock"@;
    lemma_plain_keyword(w);
    lemma_tokens_single(w);
}

/// `verify` round trip for any non-empty PIN block.
#[verifier::rlimit(50)]
pub proof fn lemma_verify_round_trip(pin: Seq<u8>)
    requires
        pin.len() > 0,
    ensures
        spec_parse("verify"@ + seq![' '] + spec_hex_encode(pin)) == Ok::<SpecCommand, SpecError>(
            SpecCommand::Verify { pin },
        ),
{
    reveal_strlit("verify");
    reveal_strlit("select");
    reveal_strlit("get_processing_options");
    reveal_strlit("generate_ac");
    reveal_strlit("get_data");
    reveal_strlit("put_data");
    reveal_strlit("read_record");
    let w = "verify"@;
    let e = spec_hex_encode(pin);
    lemma_hex_round_trip(pin);
    lemma_plain_keyword(w);
    lemma_tokens_single(e);
    lemma_tokens_prepend(w, e);
    let toks = spec_tokens(w + seq![' '] + e);
    assert(toks.len() == 2 && toks[0] == w && toks[1] == e);
    assert(arg_bytes(toks, 1) == Ok::<Seq<u8>, SpecError>(pin));
}

/// `pin_change` round trip for any non-empty PIN block.
#[verifier::rlimit(100)]
pub proof fn lemma_pin_change_round_trip(pin: Seq<u8>)
    requires
        pin.len() > 0,
    ensures
        spec_parse("pin_change"@ + seq![' '] + spec_hex_encode(pin)) == Ok::<
            SpecCommand,
            SpecError,
        >(SpecCommand::PinChange { pin }),
{
    reveal_strlit("pin_change");
    reveal_strlit("select");
    reveal_strlit("get_processing_options");
    reveal_strlit("generate_ac");
    reveal_strlit("get_data");
    reveal_strlit("put_data");
    reveal_strlit("read_record");
    reveal_strlit("verify");
    reveal_strlit("pin_unblock");
    let w = "pin_change"@;
    let e = spec_hex_encode(pin);
    lemma_hex_round_trip(pin);
    lemma_plain_keyword(w);
    lemma_tokens_single(e);
    lemma_tokens_prepend(w, e);
    let toks = spec_tokens(w + seq![' '] + e);
    assert(toks.len() == 2 && toks[0] == w && toks[1] == e);
    assert(arg_bytes(toks, 1) == Ok::<Seq<u8>, SpecError>(pin));
}

/// A token that names a cryptogram type is non-empty and holds no token
/// separator.
proof fn lemma_cryptogram_token_shape(ct: Seq<char>)
    requires
        spec_cryptogram_type(ct) is Some,
    ensures
        ct.len() > 0,
        forall|j: int| 0 <= j < ct.len() ==> !is_space_char(ct[j]),
{
    reveal_strlit("aac");
    reveal_strlit("tc");
    reveal_strlit("arqc");
    let lw = lower_seq(ct);
    assert(lw.len() == ct.len());
    assert forall|j: int| 0 <= j < ct.len() implies !is_space_char(ct[j]) by {
        assert(lw[j] == lower_char(ct[j]));
        assert(97 <= lw[j] as int <= 122);
        if is_space_char(ct[j]) {
            assert(!(65 <= ct[j] as int && ct[j] as int <= 90));
            assert(lw[j] == ct[j]);
            assert(false);
        }
    }
}

/// `generate_ac` without a CDOL: any token that names a cryptogram type
/// yields that type and no data object list.
pub proof fn lemma_generate_ac_round_trip(ct: Seq<char>)
    requires
        spec_cryptogram_type(ct) is Some,
    ensures
        spec_parse("generate_ac"@ + seq![' '] + ct) matches Ok(c) && c
            == (SpecCommand::GenerateAC {
            cryptogram_type: spec_cryptogram_type(ct)->Some_0,
            cdol: None,
        }),
{
    reveal_strlit("generate_ac");
    reveal_strlit("select");
    reveal_strlit("get_processing_options");
    let w = "generate_ac"@;
    lemma_plain_keyword(w);
    lemma_cryptogram_token_shape(ct);
    lemma_tokens_single(ct);
    lemma_tokens_prepend(w, ct);
    let toks = spec_tokens(w + seq![' '] + ct);
    assert(toks.len() == 2 && toks[0] == w && toks[1] == ct);
}

/// `generate_ac` with a CDOL: the second argument comes back decoded.
#[verifier::rlimit(100)]
pub proof fn lemma_generate_ac_cdol_round_trip(ct: Seq<char>, cdol: Seq<u8>)
    requires
        spec_cryptogram_type(ct) is Some,
        cdol.len() > 0,
    ensures
        spec_parse("generate_ac"@ + seq![' '] + ct + seq![' '] + spec_hex_encode(cdol)) matches Ok(
            c,
        ) && c == (SpecCommand::GenerateAC {
            cryptogram_type: spec_cryptogram_type(ct)->Some_0,
            cdol: Some(cdol),
        }),
{
    reveal_strlit("generate_ac");
    reveal_strlit("select");
    reveal_strlit("get_processing_options");
    let w = "generate_ac"@;
    let e = spec_hex_encode(cdol);
    lemma_hex_round_trip(cdol);
    lemma_plain_keyword(w);
    lemma_cryptogram_token_shape(ct);
    lemma_tokens_single(e);
    lemma_tokens_prepend(ct, e);
    lemma_tokens_prepend(w, ct + seq![' '] + e);
    let line = w + seq![' '] + ct + seq![' '] + e;
    assert(line =~= w + seq![' '] + (ct + seq![' '] + e));
    let toks = spec_tokens(line);
    assert(toks.len() == 3 && toks[0] == w && toks[1] == ct && toks[2] == e);
}

/// The two bytes of a 16-bit tag, big endian.
pub open spec fn tag_bytes(tag: u16) -> Seq<u8> {
    seq![(tag / 256) as u8, (tag % 256) as u8]
}

/// The big-endian value of `tag_bytes` is the tag itself.
proof fn lemma_tag_bytes_val(tag: u16)
    ensures
        bytes_uint_val(tag_bytes(tag)) == tag,
        tag_bytes(tag).len() > 0,
{
    let b = tag_bytes(tag);
    assert(b.drop_last() =~= seq![(tag / 256) as u8]);
    assert(b.drop_last().drop_last() =~= Seq::<u8>::empty());
    assert(bytes_uint_val(Seq::<u8>::empty()) == 0);
    assert(bytes_uint_val(b.drop_last()) == tag / 256);
    assert(bytes_uint_val(b) == (tag / 256) * 256 + (tag % 256));
}

/// `get_data` round trip: a tag written as four hex digits comes back as
/// the same 16-bit integer.
#[verifier::rlimit(50)]
pub proof fn lemma_get_data_round_trip(tag: u16)
    ensures
        spec_parse("get_data"@ + seq![' '] + spec_hex_encode(tag_bytes(tag))) == Ok::<
            SpecCommand,
            SpecError,
        >(SpecCommand::GetData { tag }),
{
    reveal_strlit("get_data");
    reveal_strlit("select");
    reveal_strlit("get_processing_options");
    reveal_strlit("generate_ac");
    let w = "get_data"@;
    let e = spec_hex_encode(tag_bytes(tag));
    lemma_hex_round_trip(tag_bytes(tag));
    lemma_hex_uint_of_encode(tag_bytes(tag));
    lemma_tag_bytes_val(tag);
    lemma_plain_keyword(w);
    lemma_tokens_single(e);
    lemma_tokens_prepend(w, e);
    let toks = spec_tokens(w + seq![' '] + e);
    assert(toks.len() == 2 && toks[0] == w && toks[1] == e);
    assert(arg_uint(toks, 1, 0xFFFF) == Ok::<int, SpecError>(tag as int));
}

/// `put_data` round trip: the tag and the value both come back decoded.
#[verifier::rlimit(50)]
pub proof fn lemma_put_data_round_trip(tag: u16, value: Seq<u8>)
    requires
        value.len() > 0,
    ensures
        spec_parse(
            "put_data"@ + seq![' '] + spec_hex_encode(tag_bytes(tag)) + seq![' ']
                + spec_hex_encode(value),
        ) == Ok::<SpecCommand, SpecError>(SpecCommand::PutData { tag, value }),
{
    reveal_strlit("put_data");
    reveal_strlit("select");
    reveal_strlit("get_processing_options");
    reveal_strlit("generate_ac");
    reveal_strlit("get_data");
    let w = "put_data"@;
    let et = spec_hex_encode(tag_bytes(tag));
    let ev = spec_hex_encode(value);
    lemma_hex_round_trip(tag_bytes(tag));
    lemma_hex_round_trip(value);
    lemma_hex_uint_of_encode(tag_bytes(tag));
    lemma_tag_bytes_val(tag);
    lemma_plain_keyword(w);
    lemma_tokens_single(ev);
    lemma_tokens_prepend(et, ev);
    lemma_tokens_prepend(w, et + seq![' '] + ev);
    let line = w + seq![' '] + et + seq![' '] + ev;
    assert(line =~= w + seq![' '] + (et + seq![' '] + ev));
    let toks = spec_tokens(line);
    assert(toks.len() == 3 && toks[0] == w && toks[1] == et && toks[2] == ev);
    assert(arg_uint(toks, 1, 0xFFFF) == Ok::<int, SpecError>(tag as int));
    assert(arg_bytes(toks, 2) == Ok::<Seq<u8>, SpecError>(value));
}

/// `read_record` round trip: a record number and a short file identifier,
/// each written as two hex digits, come back as the same 8-bit integers.
#[verifier::rlimit(50)]
pub proof fn lemma_read_record_round_trip(record: u8, sfi: u8)
    ensures
        spec_parse(
            "read_record"@ + seq![' '] + spec_hex_encode(seq![record]) + seq![' ']
                + spec_hex_encode(seq![sfi]),
        ) == Ok::<SpecCommand, SpecError>(SpecCommand::ReadRecord { record, sfi }),
{
    reveal_strlit("read_record");
    reveal_strlit("select");
    reveal_strlit("get_processing_options");
    reveal_strlit("generate_ac");
    reveal_strlit("get_data");
    reveal_strlit("put_data");
    let w = "read_record"@;
    let er = spec_hex_encode(seq![record]);
    let es = spec_hex_encode(seq![sfi]);
    lemma_hex_round_trip(seq![record]);
    lemma_hex_round_trip(seq![sfi]);
    lemma_hex_uint_of_encode(seq![record]);
    lemma_hex_uint_of_encode(seq![sfi]);
    assert(seq![record].drop_last() =~= Seq::<u8>::empty());
    assert(seq![sfi].drop_last() =~= Seq::<u8>::empty());
    assert(bytes_uint_val(Seq::<u8>::empty()) == 0);
    assert(bytes_uint_val(seq![record]) == record);
    assert(bytes_uint_val(seq![sfi]) == sfi);
    lemma_plain_keyword(w);
    lemma_tokens_single(es);
    lemma_tokens_prepend(er, es);
    lemma_tokens_prepend(w, er + seq![' '] + es);
    let line = w + seq![' '] + er + seq![' '] + es;
    assert(line =~= w + seq![' '] + (er + seq![' '] + es));
    let toks = spec_tokens(line);
    assert(toks.len() == 3 && toks[0] == w && toks[1] == er && toks[2] == es);
    assert(arg_uint(toks, 1, 0xFF) == Ok::<int, SpecError>(record as int));
    assert(arg_uint(toks, 2, 0xFF) == Ok::<int, SpecError>(sfi as int));
}

} // verus!
