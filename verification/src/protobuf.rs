//! Protocol-buffer wire primitives: variable-length integers, field keys, and
//! the numeric and length-delimited fields that messages are made of.

use crate::text::{append_decimal, decimal};
use crate::wire::{append_bytes, copy_bytes};
use vstd::prelude::*;
use vstd::string::*;
use vstd::utf8::*;

verus! {

/// Base-128 rendering of a number, least significant group first; every byte
/// but the last has its high bit set.
pub open spec fn varint(n: nat) -> Seq<u8>
    decreases n,
{
    if n < 128 {
        seq![n as u8]
    } else {
        seq![(n % 128 + 128) as u8] + varint(n / 128)
    }
}

/// Reads a base-128 number of at most `limit` bytes: its value and what follows.
pub open spec fn base128(s: Seq<u8>, limit: nat) -> Option<(nat, Seq<u8>)>
    decreases limit,
{
    if limit == 0 || s.len() == 0 {
        None
    } else if s[0] < 128 {
        Some((s[0] as nat, s.skip(1)))
    } else {
        match base128(s.skip(1), (limit - 1) as nat) {
            Some((high, rest)) => Some(((s[0] - 128 + 128 * high) as nat, rest)),
            None => None,
        }
    }
}

/// Reads a base-128 number that fits 64 bits: its value and what follows.
pub open spec fn parse_varint(s: Seq<u8>) -> Option<(u64, Seq<u8>)> {
    match base128(s, 10) {
        Some((v, rest)) => if v <= u64::MAX {
            Some((v as u64, rest))
        } else {
            None
        },
        None => None,
    }
}

/// The type of `prost`'s decode errors.
#[verifier::external_type_specification]
#[verifier::external_body]
pub struct ExDecodeError(prost::DecodeError);

/// `prost::encoding::encode_varint` appends the base-128 bytes of `value`.
#[verifier::external_body]
fn put_varint(value: u64, out: &mut Vec<u8>)
    ensures
        final(out)@ == old(out)@ + varint(value as nat),
{
    prost::encoding::encode_varint(value, out)
}

/// `prost::encoding::decode_varint` reads a base-128 number of at most ten
/// bytes from the front and leaves what follows; it fails when the bytes end
/// inside the number or the number does not fit 64 bits.
#[verifier::external_body]
fn get_varint<'a>(input: &'a [u8]) -> (r: Result<(u64, &'a [u8]), prost::DecodeError>)
    ensures
        match r {
            Ok((v, rest)) => parse_varint(input@) == Some((v, rest@)),
            Err(_) => parse_varint(input@) is None,
        },
{
    let mut buf = input;
    let value = prost::encoding::decode_varint(&mut buf)?;
    Ok((value, buf))
}

/// What follows an unknown field of the given wire type, tag and content, or the
/// text of the error when the field is malformed.
pub uninterp spec fn after_unknown_field(wire_type: u8, tag: u32, s: Seq<u8>) -> Result<
    Seq<u8>,
    Seq<char>,
>;

/// `prost::encoding::skip_field` passes over the content of one field that the
/// message does not know, nested groups included. It only ever moves forward.
/// Where it fails, what its error displays depends on the arguments alone.
#[verifier::external_body]
fn skip_field<'a>(wire_type: u8, tag: u32, input: &'a [u8]) -> (r: Result<&'a [u8], String>)
    ensures
        match r {
            Ok(rest) => after_unknown_field(wire_type, tag, input@) == Ok::<Seq<u8>, Seq<char>>(
                rest@,
            ) && rest@.len() <= input@.len(),
            Err(text) => after_unknown_field(wire_type, tag, input@) == Err::<Seq<u8>, Seq<char>>(
                text@,
            ),
        },
{
    let mut buf = input;
    let kind = prost::encoding::WireType::try_from(u64::from(wire_type)).map_err(|e| e.to_string())?;
    prost::encoding::skip_field(kind, tag, &mut buf, prost::encoding::DecodeContext::default())
        .map_err(|e| e.to_string())?;
    Ok(buf)
}

/// `String::from_utf8` gives the text that the bytes encode, if they are UTF-8.
#[verifier::external_body]
fn string_from_utf8(bytes: Vec<u8>) -> (r: Option<String>)
    ensures
        match r {
            Some(s) => valid_utf8(bytes@) && s@ == decode_utf8(bytes@),
            None => !valid_utf8(bytes@),
        },
{
    String::from_utf8(bytes).ok()
}

/// Why a message body was refused.
#[derive(Clone, Debug, PartialEq, Eq)]
pub struct BodyError {
    text: String,
}

impl View for BodyError {
    type V = Seq<char>;

    closed spec fn view(&self) -> Seq<char> {
        self.text@
    }
}

/// The text of the error for `cause` at `place`: the field's message and name,
/// or nothing where the key itself is at fault.
pub open spec fn refusal(place: Seq<char>, cause: Seq<char>) -> Seq<char> {
    "failed to decode Protobuf message: "@ + place + cause
}

impl BodyError {
    /// The error for `cause` at `place`.
    pub fn at(place: &str, cause: String) -> (e: BodyError)
        ensures
            e@ == refusal(place@, cause@),
    {
        let mut text: String = "failed to decode Protobuf message: ".to_owned();
        text.append(place);
        text.append(cause.as_str());
        BodyError { text }
    }

    /// The text of this error.
    pub fn message(&self) -> (m: &str)
        ensures
            m@ == self@,
    {
        self.text.as_str()
    }
}

/// Wire type of a variable-length number.
pub const VARINT: u8 = 0;

/// Wire type of a byte run with its length in front.
pub const LENGTH_DELIMITED: u8 = 2;

/// Name of a wire type.
pub open spec fn wire_type_name(wire_type: u8) -> Seq<char> {
    if wire_type == 0 {
        "Varint"@
    } else if wire_type == 1 {
        "SixtyFourBit"@
    } else if wire_type == 2 {
        "LengthDelimited"@
    } else if wire_type == 3 {
        "StartGroup"@
    } else if wire_type == 4 {
        "EndGroup"@
    } else {
        "ThirtyTwoBit"@
    }
}

/// The cause that a known field has another wire type than its own.
pub open spec fn unexpected_wire_type(actual: u8, expected: u8) -> Seq<char> {
    "invalid wire type: "@ + wire_type_name(actual) + " (expected "@ + wire_type_name(expected)
        + ")"@
}

/// Reads a number from the front, or gives the cause why there is none.
pub open spec fn parse_number(s: Seq<u8>) -> Result<(u64, Seq<u8>), Seq<char>> {
    match parse_varint(s) {
        Some((v, rest)) => Ok((v, rest)),
        None => Err("invalid varint"@),
    }
}

/// Reads a field key from the front: tag, wire type, and what follows.
pub open spec fn parse_key(s: Seq<u8>) -> Result<(u32, u8, Seq<u8>), Seq<char>> {
    match parse_number(s) {
        Err(cause) => Err(cause),
        Ok((key, rest)) => if key > u32::MAX {
            Err("invalid key value: "@ + decimal(key as nat))
        } else if key % 8 > 5 {
            Err("invalid wire type value: "@ + decimal((key % 8) as nat))
        } else if key / 8 < 1 {
            Err("invalid tag value: 0"@)
        } else {
            Ok(((key / 8) as u32, (key % 8) as u8, rest))
        },
    }
}

/// Reads the content of a numeric field.
pub open spec fn parse_numeric(wire_type: u8, s: Seq<u8>) -> Result<(u64, Seq<u8>), Seq<char>> {
    if wire_type != VARINT {
        Err(unexpected_wire_type(wire_type, VARINT))
    } else {
        parse_number(s)
    }
}

/// Reads the content of a length-delimited field.
pub open spec fn parse_run(wire_type: u8, s: Seq<u8>) -> Result<(Seq<u8>, Seq<u8>), Seq<char>> {
    if wire_type != LENGTH_DELIMITED {
        Err(unexpected_wire_type(wire_type, LENGTH_DELIMITED))
    } else {
        match parse_number(s) {
            Err(cause) => Err(cause),
            Ok((n, rest)) => if n > rest.len() {
                Err("buffer underflow"@)
            } else {
                Ok((rest.take(n as int), rest.skip(n as int)))
            },
        }
    }
}

/// Reads the content of a text field.
pub open spec fn parse_text(wire_type: u8, s: Seq<u8>) -> Result<(Seq<char>, Seq<u8>), Seq<char>> {
    match parse_run(wire_type, s) {
        Err(cause) => Err(cause),
        Ok((run, rest)) => if valid_utf8(run) {
            Ok((decode_utf8(run), rest))
        } else {
            Err("invalid string value: data is not UTF-8 encoded"@)
        },
    }
}

/// A numeric field; zero is left out.
pub open spec fn numeric_field(tag: nat, v: u64) -> Seq<u8> {
    if v == 0 {
        Seq::empty()
    } else {
        varint(tag * 8) + varint(v as nat)
    }
}

/// A length-delimited field; an empty run is left out.
pub open spec fn run_field(tag: nat, run: Seq<u8>) -> Seq<u8> {
    if run.len() == 0 {
        Seq::empty()
    } else {
        varint(tag * 8 + 2) + (varint(run.len()) + run)
    }
}

/// A number is shorter than what it was read from.
pub proof fn lemma_base128_shorter(s: Seq<u8>, limit: nat)
    ensures
        base128(s, limit) matches Some((v, rest)) ==> rest.len() < s.len(),
    decreases limit,
{
    if limit > 0 && s.len() > 0 && s[0] >= 128 {
        lemma_base128_shorter(s.skip(1), (limit - 1) as nat);
    }
}

/// A number below `128^limit` is read back from its base-128 bytes, whatever
/// follows them.
pub proof fn lemma_varint_round_trip(n: nat, limit: nat, rest: Seq<u8>)
    requires
        limit > 0,
        n < vstd::arithmetic::power::pow(128, limit),
    ensures
        base128(varint(n) + rest, limit) == Some((n, rest)),
    decreases limit,
{
    reveal(vstd::arithmetic::power::pow);
    let s = varint(n) + rest;
    if n < 128 {
        assert(s.skip(1) =~= rest);
    } else {
        assert(n / 128 < vstd::arithmetic::power::pow(128, (limit - 1) as nat)) by (nonlinear_arith)
            requires
                n < 128 * vstd::arithmetic::power::pow(128, (limit - 1) as nat),
        ;
        assert(s.skip(1) =~= varint(n / 128) + rest);
        lemma_varint_round_trip(n / 128, (limit - 1) as nat, rest);
        assert(n % 128 + 128 * (n / 128) == n);
    }
}

/// A 64-bit number is read back from its base-128 bytes, whatever follows.
pub proof fn lemma_parse_varint_prefix(v: u64, rest: Seq<u8>)
    ensures
        parse_varint(varint(v as nat) + rest) == Some((v, rest)),
        varint(v as nat).len() > 0,
{
    assert(vstd::arithmetic::power::pow(128, 10) > u64::MAX) by {
        reveal_with_fuel(vstd::arithmetic::power::pow, 11);
    }
    lemma_varint_round_trip(v as nat, 10, rest);
}

/// A field key is read back from its bytes.
pub proof fn lemma_parse_key_prefix(tag: u32, wire_type: u8, rest: Seq<u8>)
    requires
        1 <= tag < 0x2000_0000,
        wire_type <= 5,
    ensures
        parse_key(varint((tag * 8 + wire_type) as nat) + rest) == Ok::<
            (u32, u8, Seq<u8>),
            Seq<char>,
        >((tag, wire_type, rest)),
{
    let key = (tag * 8 + wire_type) as u64;
    lemma_parse_varint_prefix(key, rest);
    assert(key / 8 == tag && key % 8 == wire_type);
}

/// A length-delimited content is read back from its bytes.
pub proof fn lemma_parse_run_prefix(run: Seq<u8>, rest: Seq<u8>)
    requires
        run.len() <= u64::MAX,
    ensures
        parse_run(LENGTH_DELIMITED, (varint(run.len()) + run) + rest) == Ok::<
            (Seq<u8>, Seq<u8>),
            Seq<char>,
        >((run, rest)),
{
    assert((varint(run.len()) + run) + rest =~= varint(run.len()) + (run + rest));
    lemma_parse_varint_prefix(run.len() as u64, run + rest);
    assert((run + rest).take(run.len() as int) =~= run);
    assert((run + rest).skip(run.len() as int) =~= rest);
}

/// Appends a numeric field.
pub fn append_numeric_field(out: &mut Vec<u8>, tag: u32, v: u64)
    requires
        1 <= tag < 0x2000_0000,
    ensures
        final(out)@ == old(out)@ + numeric_field(tag as nat, v),
{
    if v != 0 {
        put_varint((tag as u64) * 8, out);
        put_varint(v, out);
    }
    assert(out@ =~= old(out)@ + numeric_field(tag as nat, v));
}

/// Appends a length-delimited field.
pub fn append_run_field(out: &mut Vec<u8>, tag: u32, run: &[u8])
    requires
        1 <= tag < 0x2000_0000,
    ensures
        final(out)@ == old(out)@ + run_field(tag as nat, run@),
{
    if run.len() != 0 {
        put_varint((tag as u64) * 8 + 2, out);
        put_varint(run.len() as u64, out);
        append_bytes(out, run);
    }
    assert(out@ =~= old(out)@ + run_field(tag as nat, run@));
}

fn wire_type_text(wire_type: u8) -> (s: &'static str)
    ensures
        s@ == wire_type_name(wire_type),
{
    if wire_type == 0 {
        "Varint"
    } else if wire_type == 1 {
        "SixtyFourBit"
    } else if wire_type == 2 {
        "LengthDelimited"
    } else if wire_type == 3 {
        "StartGroup"
    } else if wire_type == 4 {
        "EndGroup"
    } else {
        "ThirtyTwoBit"
    }
}

fn wire_type_cause(actual: u8, expected: u8) -> (cause: String)
    ensures
        cause@ == unexpected_wire_type(actual, expected),
{
    let mut cause: String = "invalid wire type: ".to_owned();
    cause.append(wire_type_text(actual));
    cause.append(" (expected ");
    cause.append(wire_type_text(expected));
    cause.append(")");
    cause
}

fn number_cause(what: &str, n: u64) -> (cause: String)
    ensures
        cause@ == what@ + decimal(n as nat),
{
    let mut cause: String = what.to_owned();
    append_decimal(&mut cause, n as u128);
    cause
}

/// Reads a number from the front.
pub fn read_number<'a>(input: &'a [u8]) -> (r: Result<(u64, &'a [u8]), String>)
    ensures
        match r {
            Ok((v, rest)) => parse_number(input@) == Ok::<(u64, Seq<u8>), Seq<char>>((v, rest@))
                && rest@.len() < input@.len(),
            Err(cause) => parse_number(input@) == Err::<(u64, Seq<u8>), Seq<char>>(cause@),
        },
{
    proof {
        lemma_base128_shorter(input@, 10);
    }
    match get_varint(input) {
        Ok((v, rest)) => Ok((v, rest)),
        Err(_) => Err("invalid varint".to_owned()),
    }
}

/// Reads a field key from the front.
pub fn read_key<'a>(input: &'a [u8]) -> (r: Result<(u32, u8, &'a [u8]), String>)
    ensures
        match r {
            Ok((tag, wire_type, rest)) => parse_key(input@) == Ok::<(u32, u8, Seq<u8>), Seq<char>>(
                (tag, wire_type, rest@),
            ) && rest@.len() < input@.len(),
            Err(cause) => parse_key(input@) == Err::<(u32, u8, Seq<u8>), Seq<char>>(cause@),
        },
{
    let (key, rest) = read_number(input)?;
    if key > u32::MAX as u64 {
        return Err(number_cause("invalid key value: ", key));
    }
    let wire_type: u8 = (key % 8) as u8;
    if wire_type > 5 {
        return Err(number_cause("invalid wire type value: ", key % 8));
    }
    let tag: u32 = (key / 8) as u32;
    if tag < 1 {
        return Err("invalid tag value: 0".to_owned());
    }
    Ok((tag, wire_type, rest))
}

/// Reads the content of a numeric field.
pub fn read_numeric<'a>(wire_type: u8, input: &'a [u8]) -> (r: Result<(u64, &'a [u8]), String>)
    ensures
        match r {
            Ok((v, rest)) => parse_numeric(wire_type, input@) == Ok::<(u64, Seq<u8>), Seq<char>>(
                (v, rest@),
            ) && rest@.len() < input@.len(),
            Err(cause) => parse_numeric(wire_type, input@) == Err::<(u64, Seq<u8>), Seq<char>>(
                cause@,
            ),
        },
{
    if wire_type != VARINT {
        return Err(wire_type_cause(wire_type, VARINT));
    }
    read_number(input)
}

/// Reads the content of a length-delimited field.
pub fn read_run<'a>(wire_type: u8, input: &'a [u8]) -> (r: Result<(Vec<u8>, &'a [u8]), String>)
    ensures
        match r {
            Ok((run, rest)) => parse_run(wire_type, input@) == Ok::<(Seq<u8>, Seq<u8>), Seq<char>>(
                (run@, rest@),
            ) && rest@.len() < input@.len(),
            Err(cause) => parse_run(wire_type, input@) == Err::<(Seq<u8>, Seq<u8>), Seq<char>>(
                cause@,
            ),
        },
{
    if wire_type != LENGTH_DELIMITED {
        return Err(wire_type_cause(wire_type, LENGTH_DELIMITED));
    }
    let (n, rest) = read_number(input)?;
    if n > rest.len() as u64 {
        return Err("buffer underflow".to_owned());
    }
    let len: usize = n as usize;
    let run: &[u8] = &rest[0..len];
    let tail: &[u8] = &rest[len..rest.len()];
    proof {
        assert(run@ =~= rest@.take(len as int));
        assert(tail@ =~= rest@.skip(len as int));
    }
    Ok((copy_bytes(run), tail))
}

/// Reads the content of a text field.
pub fn read_text<'a>(wire_type: u8, input: &'a [u8]) -> (r: Result<(String, &'a [u8]), String>)
    ensures
        match r {
            Ok((text, rest)) => parse_text(wire_type, input@) == Ok::<
                (Seq<char>, Seq<u8>),
                Seq<char>,
            >((text@, rest@)) && rest@.len() < input@.len(),
            Err(cause) => parse_text(wire_type, input@) == Err::<(Seq<char>, Seq<u8>), Seq<char>>(
                cause@,
            ),
        },
{
    let (run, rest) = read_run(wire_type, input)?;
    match string_from_utf8(run) {
        Some(text) => Ok((text, rest)),
        None => Err("invalid string value: data is not UTF-8 encoded".to_owned()),
    }
}

/// Passes over an unknown field.
pub fn read_unknown<'a>(wire_type: u8, tag: u32, input: &'a [u8]) -> (r: Result<&'a [u8], BodyError>)
    ensures
        match r {
            Ok(rest) => after_unknown_field(wire_type, tag, input@) == Ok::<Seq<u8>, Seq<char>>(
                rest@,
            ) && rest@.len() <= input@.len(),
            Err(e) => after_unknown_field(wire_type, tag, input@) == Err::<Seq<u8>, Seq<char>>(e@),
        },
{
    match skip_field(wire_type, tag, input) {
        Ok(rest) => Ok(rest),
        Err(text) => Err(BodyError { text }),
    }
}

/// The value of bytes that carry seven bits each, the lowest first.
pub open spec fn group_value(s: Seq<u8>) -> nat
    decreases s.len(),
{
    if s.len() == 0 {
        0
    } else {
        (s[0] % 128) as nat + 128 * group_value(s.skip(1))
    }
}

/// A number is written in groups of seven bits, the lowest first. All bytes but the
/// last have the high bit set, the last has not, and there is no byte too many.
pub proof fn law_numbers_are_written_in_groups(n: nat)
    ensures
        group_value(varint(n)) == n,
        varint(n).len() > 0,
        varint(n).last() < 128,
        forall|i: int| 0 <= i < varint(n).len() - 1 ==> #[trigger] varint(n)[i] >= 128,
        varint(n).len() > 1 ==> varint(n).last() != 0,
        n < 128 ==> varint(n).len() == 1,
    decreases n,
{
    if n < 128 {
        assert(varint(n).skip(1) =~= Seq::empty());
        assert(group_value(varint(n).skip(1)) == 0);
    } else {
        law_numbers_are_written_in_groups(n / 128);
        let tail = varint(n / 128);
        let all = varint(n);
        assert(all.skip(1) =~= tail);
        assert(all.last() == tail.last());
        assert forall|i: int| 0 <= i < all.len() - 1 implies #[trigger] all[i] >= 128 by {
            if i > 0 {
                assert(all[i] == tail[i - 1]);
            }
        }
        if tail.len() == 1 {
            assert(group_value(tail.skip(1)) == 0) by {
                assert(tail.skip(1) =~= Seq::empty());
            }
        }
    }
}

/// A field is written as its key and its content, and a key is eight times the tag
/// plus the wire type: zero for a number, two for a run of bytes, which has its
/// length in front. What has its default is left out.
pub proof fn law_fields_have_a_key(tag: nat, v: u64, run: Seq<u8>)
    ensures
        v != 0 ==> numeric_field(tag, v) == varint(8 * tag) + varint(v as nat),
        numeric_field(tag, 0).len() == 0,
        run.len() > 0 ==> run_field(tag, run) == varint(8 * tag + 2) + varint(run.len()) + run,
        run.len() == 0 ==> run_field(tag, run).len() == 0,
{
    assert(run.len() > 0 ==> varint(8 * tag + 2) + (varint(run.len()) + run) =~= varint(
        8 * tag + 2,
    ) + varint(run.len()) + run);
}

/// A key whose number needs more than 32 bits, whose wire type does not exist or
/// whose tag is zero is refused; any other is split into tag and wire type.
pub proof fn law_keys_are_split(key: u64, rest: Seq<u8>)
    ensures
        ({
            let r = parse_key(varint(key as nat) + rest);
            &&& r is Err <==> (key > 0xFFFF_FFFF || key % 8 == 6 || key % 8 == 7 || key < 8)
            &&& r matches Ok((tag, wire_type, left)) ==> 8 * tag + wire_type == key && wire_type
                <= 5 && left == rest
        }),
{
    lemma_parse_varint_prefix(key, rest);
}

/// Content is read only from a field of its own wire type, a run only where all of
/// its bytes are there, and a text only from bytes that are one.
pub proof fn law_contents_are_checked(wire_type: u8, run: Seq<u8>, n: u64, rest: Seq<u8>)
    requires
        run.len() <= u64::MAX,
    ensures
        wire_type != 0 ==> parse_numeric(wire_type, rest) is Err,
        parse_numeric(0, varint(n as nat) + rest) == Ok::<(u64, Seq<u8>), Seq<char>>((n, rest)),
        wire_type != 2 ==> parse_run(wire_type, rest) is Err && parse_text(wire_type, rest) is Err,
        parse_run(2, (varint(run.len()) + run) + rest) == Ok::<(Seq<u8>, Seq<u8>), Seq<char>>(
            (run, rest),
        ),
        n > rest.len() ==> parse_run(2, varint(n as nat) + rest) is Err,
        valid_utf8(run) ==> parse_text(2, (varint(run.len()) + run) + rest) == Ok::<
            (Seq<char>, Seq<u8>),
            Seq<char>,
        >((decode_utf8(run), rest)),
        !valid_utf8(run) ==> parse_text(2, (varint(run.len()) + run) + rest) is Err,
{
    lemma_parse_varint_prefix(n, rest);
    lemma_parse_run_prefix(run, rest);
}

/// A refusal names the place and ends with the cause, and a wrong wire type is named
/// with the one that was expected.
pub proof fn law_refusals_name_place_and_cause(place: Seq<char>, cause: Seq<char>)
    ensures
        refusal(place, cause) == "failed to decode Protobuf message: "@ + (place + cause),
        unexpected_wire_type(0, 2) == "invalid wire type: Varint (expected LengthDelimited)"@,
        unexpected_wire_type(2, 0) == "invalid wire type: LengthDelimited (expected Varint)"@,
{
    assert("failed to decode Protobuf message: "@ + place + cause
        =~= "failed to decode Protobuf message: "@ + (place + cause));
    reveal_strlit("invalid wire type: ");
    reveal_strlit("Varint");
    reveal_strlit("LengthDelimited");
    reveal_strlit(" (expected ");
    reveal_strlit(")");
    reveal_strlit("invalid wire type: Varint (expected LengthDelimited)");
    reveal_strlit("invalid wire type: LengthDelimited (expected Varint)");
    assert(unexpected_wire_type(0, 2) =~= "invalid wire type: Varint (expected LengthDelimited)"@);
    assert(unexpected_wire_type(2, 0) =~= "invalid wire type: LengthDelimited (expected Varint)"@);
}

} // verus!
