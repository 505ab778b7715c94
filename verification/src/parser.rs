//! The frame decoder: variable-length integer codec, fixed-header parser,
//! length-prefixed fields, the CONNECT variable header and payload, and the
//! incremental reader that drives them over a connection's byte stream.
use crate::protocol::{
    ConnectPayload, ConnectVariableHeader, ControlPacketType, FirstByteData, FixedHeader,
    MQTTPacket, MQTTQoS, MqttParseError, PacketView, Payload, VariableHeader,
};
use crate::protocol::control_packet_type::spec_control_type;
use crate::protocol::payload::PayloadView;
use crate::protocol::variable_header::VariableHeaderView;
use vstd::prelude::*;
use vstd::slice::{slice_index_get, slice_subrange, slice_to_vec};
use vstd::utf8::{decode_utf8, valid_utf8};

verus! {

/// Outcome of one decode attempt over a byte slice: a value together with
/// how many bytes it consumed, a report that at least that many further
/// bytes are needed, or a fatal decode error.
#[derive(Clone, Debug, PartialEq)]
pub enum ReadResult<T, E> {
    Done(T, usize),
    NeedMoreInput(usize),
    Failed(E),
}

/// The 7-bit digit a remaining-length byte contributes.
pub open spec fn rl_digit(b: u8) -> int {
    (b % 128) as int
}

/// Whether a remaining-length byte has its continuation bit (the high bit)
/// set, announcing a further byte.
pub open spec fn rl_cont(b: u8) -> bool {
    b >= 128
}

/// Decoding of the "remaining length" field: up to four bytes, each
/// contributing its low seven bits in little-endian digit order; a missing
/// byte is reported as exactly one more needed; a fourth byte that still
/// carries the continuation bit would demand a fifth digit and is invalid.
pub open spec fn spec_decode_remaining_length(s: Seq<u8>) -> ReadResult<u32, MqttParseError> {
    if s.len() >= 1 && !rl_cont(s[0]) {
        ReadResult::Done(rl_digit(s[0]) as u32, 1)
    } else if s.len() >= 2 && !rl_cont(s[1]) {
        ReadResult::Done((rl_digit(s[0]) + rl_digit(s[1]) * 128) as u32, 2)
    } else if s.len() >= 3 && !rl_cont(s[2]) {
        ReadResult::Done((rl_digit(s[0]) + rl_digit(s[1]) * 128 + rl_digit(s[2]) * 16384) as u32, 3)
    } else if s.len() >= 4 && !rl_cont(s[3]) {
        ReadResult::Done(
            (rl_digit(s[0]) + rl_digit(s[1]) * 128 + rl_digit(s[2]) * 16384 + rl_digit(s[3])
                * 2097152) as u32,
            4,
        )
    } else if s.len() >= 4 {
        ReadResult::Failed(MqttParseError::InvalidRemainingLength)
    } else {
        ReadResult::NeedMoreInput(1)
    }
}

/// Decodes the remaining-length field from the front of `input`, leaving
/// any following bytes untouched.
pub fn remaining_length_parser(input: &[u8]) -> (r: ReadResult<u32, MqttParseError>)
    ensures
        r == spec_decode_remaining_length(input@),
{
    if input.len() < 1 {
        return ReadResult::NeedMoreInput(1);
    }
    let b0 = *slice_index_get(input, 0);
    if b0 < 128 {
        return ReadResult::Done((b0 % 128) as u32, 1);
    }
    if input.len() < 2 {
        return ReadResult::NeedMoreInput(1);
    }
    let b1 = *slice_index_get(input, 1);
    if b1 < 128 {
        return ReadResult::Done((b0 % 128) as u32 + (b1 % 128) as u32 * 128, 2);
    }
    if input.len() < 3 {
        return ReadResult::NeedMoreInput(1);
    }
    let b2 = *slice_index_get(input, 2);
    if b2 < 128 {
        return ReadResult::Done(
            (b0 % 128) as u32 + (b1 % 128) as u32 * 128 + (b2 % 128) as u32 * 16384,
            3,
        );
    }
    if input.len() < 4 {
        return ReadResult::NeedMoreInput(1);
    }
    let b3 = *slice_index_get(input, 3);
    if b3 < 128 {
        return ReadResult::Done(
            (b0 % 128) as u32 + (b1 % 128) as u32 * 128 + (b2 % 128) as u32 * 16384 + (b3
                % 128) as u32 * 2097152,
            4,
        );
    }
    ReadResult::Failed(MqttParseError::InvalidRemainingLength)
}

/// The canonical variable-length encoding of `n`: little-endian 7-bit
/// digits, the high bit of every byte but the last set.
pub open spec fn spec_encode_remaining_length(n: u32) -> Seq<u8>
    recommends
        n <= 268435455,
{
    if n < 128 {
        seq![n as u8]
    } else if n < 16384 {
        seq![(n % 128 + 128) as u8, (n / 128) as u8]
    } else if n < 2097152 {
        seq![(n % 128 + 128) as u8, ((n / 128) % 128 + 128) as u8, (n / 16384) as u8]
    } else {
        seq![
            (n % 128 + 128) as u8,
            ((n / 128) % 128 + 128) as u8,
            ((n / 16384) % 128 + 128) as u8,
            (n / 2097152) as u8,
        ]
    }
}

/// Law: decoding the canonical encoding of any legal value yields that
/// value back and consumes exactly the encoding's length (one byte up to
/// 127, two up to 16383, three up to 2097151, four up to 268435455).
pub proof fn lemma_remaining_length_round_trip(n: u32)
    requires
        n <= 268435455,
    ensures
        spec_decode_remaining_length(spec_encode_remaining_length(n)) == ReadResult::<
            u32,
            MqttParseError,
        >::Done(n, spec_encode_remaining_length(n).len() as usize),
{
    let s = spec_encode_remaining_length(n);
    if n < 128 {
        assert(rl_digit(n as u8) == n) by (bit_vector)
            requires
                n < 128,
        ;
    } else if n < 16384 {
        assert(((n % 128 + 128) as u8) >= 128 && ((n / 128) as u8) < 128 && ((n % 128 + 128) as u8)
            % 128 + (((n / 128) as u8) % 128) * 128 == n) by (bit_vector)
            requires
                128 <= n < 16384,
        ;
    } else if n < 2097152 {
        assert(((n % 128 + 128) as u8) >= 128 && (((n / 128) % 128 + 128) as u8) >= 128 && ((n
            / 16384) as u8) < 128 && ((n % 128 + 128) as u8) % 128 + ((((n / 128) % 128
            + 128) as u8) % 128) * 128 + (((n / 16384) as u8) % 128) * 16384 == n) by (bit_vector)
            requires
                16384 <= n < 2097152,
        ;
    } else {
        assert(((n % 128 + 128) as u8) >= 128 && (((n / 128) % 128 + 128) as u8) >= 128 && (((n
            / 16384) % 128 + 128) as u8) >= 128 && ((n / 2097152) as u8) < 128 && ((n % 128
            + 128) as u8) % 128 + ((((n / 128) % 128 + 128) as u8) % 128) * 128 + ((((n / 16384)
            % 128 + 128) as u8) % 128) * 16384 + (((n / 2097152) as u8) % 128) * 2097152 == n) by (bit_vector)
            requires
                2097152 <= n <= 268435455,
        ;
    }
}

/// Law: a remaining-length field whose first four bytes all carry the
/// continuation bit would need a fifth digit and is invalid, whatever
/// bytes follow.
pub proof fn lemma_five_continuation_bytes_invalid(s: Seq<u8>)
    requires
        s.len() >= 4,
        forall|i: int| 0 <= i < 4 ==> rl_cont(#[trigger] s[i]),
    ensures
        spec_decode_remaining_length(s) == ReadResult::<u32, MqttParseError>::Failed(
            MqttParseError::InvalidRemainingLength,
        ),
{
}

/// The first-byte fields denoted by byte `b` under packet kind `t`: the
/// four low bits become the four flags, `bit_k` having weight `1 << k`.
pub open spec fn spec_first_byte_data(b: u8, t: ControlPacketType) -> FirstByteData {
    FirstByteData {
        control_type: t,
        bit_0: b % 2 == 1,
        bit_1: (b / 2) % 2 == 1,
        bit_2: (b / 4) % 2 == 1,
        bit_3: (b / 8) % 2 == 1,
    }
}

/// Decoding of the first fixed-header byte: the high nibble names the
/// packet kind (invalid codes are fatal), the low nibble carries the flags.
pub open spec fn spec_first_byte(s: Seq<u8>) -> ReadResult<FirstByteData, MqttParseError> {
    if s.len() < 1 {
        ReadResult::NeedMoreInput(1)
    } else {
        match spec_control_type(s[0] / 16) {
            Some(t) => ReadResult::Done(spec_first_byte_data(s[0], t), 1),
            None => ReadResult::Failed(MqttParseError::InvalidControlType),
        }
    }
}

/// Decodes the first fixed-header byte into its packet kind and flag bits.
pub fn first_byte_parser(input: &[u8]) -> (r: ReadResult<FirstByteData, MqttParseError>)
    ensures
        r == spec_first_byte(input@),
{
    if input.len() < 1 {
        return ReadResult::NeedMoreInput(1);
    }
    let first_byte = *slice_index_get(input, 0);
    match ControlPacketType::try_from(first_byte / 16) {
        Ok(control_type) => ReadResult::Done(
            FirstByteData {
                control_type,
                bit_0: first_byte % 2 == 1,
                bit_1: (first_byte / 2) % 2 == 1,
                bit_2: (first_byte / 4) % 2 == 1,
                bit_3: (first_byte / 8) % 2 == 1,
            },
            1,
        ),
        Err(e) => ReadResult::Failed(e),
    }
}

/// Decodes the first byte when only the packet kind is of interest.
pub fn new_first_byte_parser(input: &[u8]) -> (r: ReadResult<ControlPacketType, MqttParseError>)
    ensures
        r == match spec_first_byte(input@) {
            ReadResult::Done(fbd, n) => ReadResult::Done(fbd.control_type, n),
            ReadResult::NeedMoreInput(k) => ReadResult::NeedMoreInput(k),
            ReadResult::Failed(e) => ReadResult::Failed(e),
        },
{
    match first_byte_parser(input) {
        ReadResult::Done(fbd, n) => ReadResult::Done(fbd.control_type, n),
        ReadResult::NeedMoreInput(k) => ReadResult::NeedMoreInput(k),
        ReadResult::Failed(e) => ReadResult::Failed(e),
    }
}

/// Decoding of the whole fixed header: the first byte, then the remaining
/// length from the bytes after it, both outcomes propagated unchanged.
pub open spec fn spec_fixed_header(s: Seq<u8>) -> ReadResult<FixedHeader, MqttParseError> {
    match spec_first_byte(s) {
        ReadResult::Done(fbd, _) => match spec_decode_remaining_length(
            s.subrange(1, s.len() as int),
        ) {
            ReadResult::Done(len, m) => ReadResult::Done(
                FixedHeader {
                    control_type: fbd.control_type,
                    bit_0: fbd.bit_0,
                    bit_1: fbd.bit_1,
                    bit_2: fbd.bit_2,
                    bit_3: fbd.bit_3,
                    remaining_length: len,
                },
                (1 + m) as usize,
            ),
            ReadResult::NeedMoreInput(k) => ReadResult::NeedMoreInput(k),
            ReadResult::Failed(e) => ReadResult::Failed(e),
        },
        ReadResult::NeedMoreInput(k) => ReadResult::NeedMoreInput(k),
        ReadResult::Failed(e) => ReadResult::Failed(e),
    }
}

/// Decodes a fixed header from the front of `input`.
pub fn fixed_header_parser(input: &[u8]) -> (r: ReadResult<FixedHeader, MqttParseError>)
    ensures
        r == spec_fixed_header(input@),
{
    match first_byte_parser(input) {
        ReadResult::Done(fbd, _) => {
            let rest = slice_subrange(input, 1, input.len());
            match remaining_length_parser(rest) {
                ReadResult::Done(len, m) => ReadResult::Done(
                    FixedHeader::from_first_byte_data(fbd, len),
                    1 + m,
                ),
                ReadResult::NeedMoreInput(k) => ReadResult::NeedMoreInput(k),
                ReadResult::Failed(e) => ReadResult::Failed(e),
            }
        },
        ReadResult::NeedMoreInput(k) => ReadResult::NeedMoreInput(k),
        ReadResult::Failed(e) => ReadResult::Failed(e),
    }
}

/// The big-endian value of a two-byte length or keep-alive field.
pub open spec fn spec_u16_be(b0: u8, b1: u8) -> int {
    b0 * 256 + b1
}

/// Decoding of a length-prefixed field: a big-endian two-byte length, then
/// that many bytes.
pub open spec fn spec_length_prefixed_bytes(s: Seq<u8>) -> ReadResult<Seq<u8>, MqttParseError> {
    if s.len() < 2 {
        ReadResult::NeedMoreInput((2 - s.len()) as usize)
    } else {
        let n = spec_u16_be(s[0], s[1]);
        if s.len() < 2 + n {
            ReadResult::NeedMoreInput((2 + n - s.len()) as usize)
        } else {
            ReadResult::Done(s.subrange(2, 2 + n), (2 + n) as usize)
        }
    }
}

/// Decoding of a length-prefixed UTF-8 string: the prefixed bytes must be
/// a valid UTF-8 encoding, anything else is fatal.
pub open spec fn spec_length_prefixed_utf8(s: Seq<u8>) -> ReadResult<Seq<char>, MqttParseError> {
    match spec_length_prefixed_bytes(s) {
        ReadResult::Done(bytes, c) => if valid_utf8(bytes) {
            ReadResult::Done(decode_utf8(bytes), c)
        } else {
            ReadResult::Failed(MqttParseError::InvalidUTF8Sequence)
        },
        ReadResult::NeedMoreInput(k) => ReadResult::NeedMoreInput(k),
        ReadResult::Failed(e) => ReadResult::Failed(e),
    }
}

/// The view of a byte-array decode outcome.
pub open spec fn rr_bytes_view(r: ReadResult<Vec<u8>, MqttParseError>) -> ReadResult<
    Seq<u8>,
    MqttParseError,
> {
    match r {
        ReadResult::Done(v, c) => ReadResult::Done(v@, c),
        ReadResult::NeedMoreInput(k) => ReadResult::NeedMoreInput(k),
        ReadResult::Failed(e) => ReadResult::Failed(e),
    }
}

/// The view of a string decode outcome.
pub open spec fn rr_string_view(r: ReadResult<String, MqttParseError>) -> ReadResult<
    Seq<char>,
    MqttParseError,
> {
    match r {
        ReadResult::Done(s, c) => ReadResult::Done(s@, c),
        ReadResult::NeedMoreInput(k) => ReadResult::NeedMoreInput(k),
        ReadResult::Failed(e) => ReadResult::Failed(e),
    }
}

/// Relies on std's `str::from_utf8`: it succeeds exactly on the byte
/// sequences that are valid UTF-8, and the resulting string holds the
/// characters those bytes encode.
#[verifier::external_body]
fn utf8_from_bytes(b: &[u8]) -> (r: Option<String>)
    ensures
        r is Some <==> valid_utf8(b@),
        r matches Some(s) ==> s@ == decode_utf8(b@),
{
    match core::str::from_utf8(b) {
        Ok(s) => Some(s.to_owned()),
        Err(_) => None,
    }
}

/// Decodes a length-prefixed byte array from the front of `input`.
pub fn length_prefixed_byte_array(input: &[u8]) -> (r: ReadResult<Vec<u8>, MqttParseError>)
    ensures
        rr_bytes_view(r) == spec_length_prefixed_bytes(input@),
{
    if input.len() < 2 {
        return ReadResult::NeedMoreInput(2 - input.len());
    }
    let n = (*slice_index_get(input, 0) as usize) * 256 + (*slice_index_get(input, 1) as usize);
    if input.len() - 2 < n {
        return ReadResult::NeedMoreInput(n - (input.len() - 2));
    }
    let bytes = slice_to_vec(slice_subrange(input, 2, 2 + n));
    ReadResult::Done(bytes, 2 + n)
}

/// Decodes a length-prefixed UTF-8 string from the front of `input`.
pub fn length_prefixed_utf8_parser(input: &[u8]) -> (r: ReadResult<String, MqttParseError>)
    ensures
        rr_string_view(r) == spec_length_prefixed_utf8(input@),
{
    match length_prefixed_byte_array(input) {
        ReadResult::Done(bytes, c) => match utf8_from_bytes(bytes.as_slice()) {
            Some(s) => ReadResult::Done(s, c),
            None => ReadResult::Failed(MqttParseError::InvalidUTF8Sequence),
        },
        ReadResult::NeedMoreInput(k) => ReadResult::NeedMoreInput(k),
        ReadResult::Failed(e) => ReadResult::Failed(e),
    }
}

/// Decoding of the CONNECT variable header: a length-prefixed UTF-8
/// protocol name, a protocol level byte, a connect-flags byte, and a
/// big-endian two-byte keep-alive.
pub open spec fn spec_connect_variable_header(s: Seq<u8>) -> ReadResult<
    VariableHeaderView,
    MqttParseError,
> {
    match spec_length_prefixed_utf8(s) {
        ReadResult::Done(name, c) => if s.len() < c + 4 {
            ReadResult::NeedMoreInput((c + 4 - s.len()) as usize)
        } else {
            ReadResult::Done(
                VariableHeaderView::Connect {
                    protocol_name: name,
                    protocol_level: s[c as int],
                    connect_flags: s[c + 1],
                    keep_alive: spec_u16_be(s[c + 2], s[c + 3]) as u16,
                },
                (c + 4) as usize,
            )
        },
        ReadResult::NeedMoreInput(k) => ReadResult::NeedMoreInput(k),
        ReadResult::Failed(e) => ReadResult::Failed(e),
    }
}

/// The view of a variable-header decode outcome.
pub open spec fn rr_vh_view(r: ReadResult<VariableHeader, MqttParseError>) -> ReadResult<
    VariableHeaderView,
    MqttParseError,
> {
    match r {
        ReadResult::Done(vh, c) => ReadResult::Done(vh@, c),
        ReadResult::NeedMoreInput(k) => ReadResult::NeedMoreInput(k),
        ReadResult::Failed(e) => ReadResult::Failed(e),
    }
}

/// Decodes a CONNECT variable header from the front of `input`.
pub fn connect_variable_header_parser(input: &[u8]) -> (r: ReadResult<
    VariableHeader,
    MqttParseError,
>)
    ensures
        rr_vh_view(r) == spec_connect_variable_header(input@),
{
    match length_prefixed_utf8_parser(input) {
        ReadResult::Done(name, c) => {
            if input.len() - c < 4 {
                return ReadResult::NeedMoreInput(4 - (input.len() - c));
            }
            let protocol_level = *slice_index_get(input, c);
            let connect_flags = *slice_index_get(input, c + 1);
            let keep_alive = (*slice_index_get(input, c + 2) as u16) * 256 + (*slice_index_get(
                input,
                c + 3,
            ) as u16);
            ReadResult::Done(
                VariableHeader::Connect(
                    ConnectVariableHeader {
                        protocol_name: name,
                        protocol_level,
                        connect_flags,
                        keep_alive,
                    },
                ),
                c + 4,
            )
        },
        ReadResult::NeedMoreInput(k) => ReadResult::NeedMoreInput(k),
        ReadResult::Failed(e) => ReadResult::Failed(e),
    }
}

/// Decoding of the CONNECT payload. Only the client identifier is decoded
/// here (the same length-prefixed pattern); the flag-driven optional
/// fields are an extension point and stay empty.
pub open spec fn spec_connect_payload(s: Seq<u8>) -> ReadResult<PayloadView, MqttParseError> {
    match spec_length_prefixed_utf8(s) {
        ReadResult::Done(cid, c) => ReadResult::Done(
            PayloadView::Connect {
                client_id: cid,
                will_topic: None,
                will_message: None,
                username: None,
                password: None,
            },
            c,
        ),
        ReadResult::NeedMoreInput(k) => ReadResult::NeedMoreInput(k),
        ReadResult::Failed(e) => ReadResult::Failed(e),
    }
}

/// The view of a payload decode outcome.
pub open spec fn rr_payload_view(r: ReadResult<Payload, MqttParseError>) -> ReadResult<
    PayloadView,
    MqttParseError,
> {
    match r {
        ReadResult::Done(p, c) => ReadResult::Done(p@, c),
        ReadResult::NeedMoreInput(k) => ReadResult::NeedMoreInput(k),
        ReadResult::Failed(e) => ReadResult::Failed(e),
    }
}

/// Decodes a CONNECT payload from the front of `input`.
pub fn connect_payload_parser(input: &[u8]) -> (r: ReadResult<Payload, MqttParseError>)
    ensures
        rr_payload_view(r) == spec_connect_payload(input@),
{
    match length_prefixed_utf8_parser(input) {
        ReadResult::Done(client_id, c) => ReadResult::Done(
            Payload::Connect(
                ConnectPayload {
                    client_id,
                    will_topic: None,
                    will_message: None,
                    username: None,
                    password: None,
                },
            ),
            c,
        ),
        ReadResult::NeedMoreInput(k) => ReadResult::NeedMoreInput(k),
        ReadResult::Failed(e) => ReadResult::Failed(e),
    }
}

/// Decoding of a CONNECT variable header followed by its payload.
pub open spec fn spec_connect_packet(s: Seq<u8>) -> ReadResult<
    (VariableHeaderView, PayloadView),
    MqttParseError,
> {
    match spec_connect_variable_header(s) {
        ReadResult::Done(vh, c) => match spec_connect_payload(s.subrange(c as int, s.len() as int)) {
            ReadResult::Done(p, c2) => ReadResult::Done((vh, p), (c + c2) as usize),
            ReadResult::NeedMoreInput(k) => ReadResult::NeedMoreInput(k),
            ReadResult::Failed(e) => ReadResult::Failed(e),
        },
        ReadResult::NeedMoreInput(k) => ReadResult::NeedMoreInput(k),
        ReadResult::Failed(e) => ReadResult::Failed(e),
    }
}

/// The view of a whole-CONNECT decode outcome.
pub open spec fn rr_connect_view(r: ReadResult<(VariableHeader, Payload), MqttParseError>)
    -> ReadResult<(VariableHeaderView, PayloadView), MqttParseError> {
    match r {
        ReadResult::Done((vh, p), c) => ReadResult::Done((vh@, p@), c),
        ReadResult::NeedMoreInput(k) => ReadResult::NeedMoreInput(k),
        ReadResult::Failed(e) => ReadResult::Failed(e),
    }
}

/// Decodes a CONNECT variable header and payload from the front of `input`.
pub fn connect_packet_parser(input: &[u8]) -> (r: ReadResult<
    (VariableHeader, Payload),
    MqttParseError,
>)
    ensures
        rr_connect_view(r) == spec_connect_packet(input@),
{
    match connect_variable_header_parser(input) {
        ReadResult::Done(vh, c) => {
            let rest = slice_subrange(input, c, input.len());
            match connect_payload_parser(rest) {
                ReadResult::Done(p, c2) => ReadResult::Done((vh, p), c + c2),
                ReadResult::NeedMoreInput(k) => ReadResult::NeedMoreInput(k),
                ReadResult::Failed(e) => ReadResult::Failed(e),
            }
        },
        ReadResult::NeedMoreInput(k) => ReadResult::NeedMoreInput(k),
        ReadResult::Failed(e) => ReadResult::Failed(e),
    }
}

/// The per-connection decode state. `Idle` only occurs before the first
/// byte is processed; `FixedHeader` awaits a complete fixed header;
/// `VariableHeader` awaits the body announced by the remaining length;
/// `Disconnect` is terminal. `Payload` is unused by the incremental reader
/// (a body is consumed in one piece) and is kept inert.
#[derive(Clone, Copy, Debug, PartialEq, Eq, Structural)]
pub enum ReadState {
    Idle,
    FixedHeader,
    VariableHeader,
    Payload,
    Disconnect,
}

/// The fixed-header fields the reader holds while it waits for a body.
#[verifier::ext_equal]
pub struct PendingView {
    pub control_type: ControlPacketType,
    pub qos: Option<MQTTQoS>,
    pub remaining_length: u32,
}

/// Mathematical view of the incremental reader: its state, the pending
/// fixed-header fields (meaningful in state `VariableHeader`), the
/// buffered bytes, and the packets emitted so far, in order.
#[verifier::ext_equal]
pub struct ReaderView {
    pub state: ReadState,
    pub pending: PendingView,
    pub buffer: Seq<u8>,
    pub completed: Seq<PacketView>,
}

/// The quality of service announced by the flag bits: derived for Publish
/// packets only, and absent for the invalid bit pattern.
pub open spec fn spec_qos_of(fh: FixedHeader) -> Option<MQTTQoS> {
    if fh.control_type is Publish {
        if !fh.bit_2 && !fh.bit_1 {
            Some(MQTTQoS::AtMostOnce)
        } else if !fh.bit_2 && fh.bit_1 {
            Some(MQTTQoS::AtLeastOnce)
        } else if fh.bit_2 && !fh.bit_1 {
            Some(MQTTQoS::ExactlyOne)
        } else {
            None
        }
    } else {
        None
    }
}

/// The pending fields recorded when a fixed header has been decoded.
pub open spec fn spec_pending_of(fh: FixedHeader) -> PendingView {
    PendingView {
        control_type: fh.control_type,
        qos: spec_qos_of(fh),
        remaining_length: fh.remaining_length,
    }
}

/// The pending fields of a reader that is not mid-packet.
pub open spec fn spec_initial_pending() -> PendingView {
    PendingView { control_type: ControlPacketType::Connect, qos: None, remaining_length: 0 }
}

/// The view of a freshly created reader.
pub open spec fn spec_initial_reader() -> ReaderView {
    ReaderView {
        state: ReadState::Idle,
        pending: spec_initial_pending(),
        buffer: Seq::empty(),
        completed: Seq::empty(),
    }
}

/// Ordering used to show that draining terminates: states that can hand
/// over to another state without consuming a byte rank higher.
pub open spec fn spec_state_rank(st: ReadState) -> int {
    match st {
        ReadState::Idle => 2,
        ReadState::VariableHeader => 1,
        _ => 0,
    }
}

/// One maximal decoding pass over the buffered bytes: packets are emitted
/// as long as a complete frame is buffered, a decode error closes the
/// reader and discards the buffer, and a short buffer leaves everything in
/// place for the next read.
pub open spec fn spec_reader_step(r: ReaderView) -> ReaderView
    decreases r.buffer.len(), spec_state_rank(r.state),
{
    match r.state {
        ReadState::Idle => spec_reader_step(ReaderView { state: ReadState::FixedHeader, ..r }),
        ReadState::FixedHeader => match spec_fixed_header(r.buffer) {
            ReadResult::Done(fh, n) => spec_reader_step(
                ReaderView {
                    state: ReadState::VariableHeader,
                    pending: spec_pending_of(fh),
                    buffer: r.buffer.subrange(n as int, r.buffer.len() as int),
                    completed: r.completed,
                },
            ),
            ReadResult::NeedMoreInput(_) => r,
            ReadResult::Failed(_) => ReaderView {
                state: ReadState::Disconnect,
                buffer: Seq::empty(),
                ..r
            },
        },
        ReadState::VariableHeader => {
            let rl = r.pending.remaining_length as int;
            if r.buffer.len() < rl {
                r
            } else {
                let body = r.buffer.subrange(0, rl);
                let rest = r.buffer.subrange(rl, r.buffer.len() as int);
                if r.pending.control_type is Connect {
                    match spec_connect_variable_header(body) {
                        ReadResult::Done(vh, m) => spec_reader_step(
                            ReaderView {
                                state: ReadState::FixedHeader,
                                pending: spec_initial_pending(),
                                buffer: rest,
                                completed: r.completed.push(
                                    PacketView {
                                        control_type: r.pending.control_type,
                                        qos: r.pending.qos,
                                        remaining_length: r.pending.remaining_length,
                                        variable_header: Some(vh),
                                        payload: body.subrange(m as int, body.len() as int),
                                    },
                                ),
                            },
                        ),
                        _ => ReaderView {
                            state: ReadState::Disconnect,
                            buffer: Seq::empty(),
                            ..r
                        },
                    }
                } else {
                    spec_reader_step(
                        ReaderView {
                            state: ReadState::FixedHeader,
                            pending: spec_initial_pending(),
                            buffer: rest,
                            completed: r.completed.push(
                                PacketView {
                                    control_type: r.pending.control_type,
                                    qos: r.pending.qos,
                                    remaining_length: r.pending.remaining_length,
                                    variable_header: None,
                                    payload: body,
                                },
                            ),
                        },
                    )
                }
            }
        },
        ReadState::Payload => r,
        ReadState::Disconnect => r,
    }
}

/// What one readiness-driven read does to the reader: a closed (or inert)
/// reader is untouched; a zero-length read with nothing buffered closes
/// the reader; otherwise the new bytes are appended and decoding runs as
/// far as it can.
pub open spec fn spec_process(r: ReaderView, input: Seq<u8>) -> ReaderView {
    if r.state is Disconnect || r.state is Payload {
        r
    } else if input.len() == 0 && r.buffer.len() == 0 {
        ReaderView { state: ReadState::Disconnect, ..r }
    } else {
        spec_reader_step(ReaderView { buffer: r.buffer + input, ..r })
    }
}

/// The incremental byte-accumulating reader: one per connection. Bytes
/// arrive in arbitrary chunks; the reader buffers them, decodes every
/// complete frame as soon as it is available, and appends the decoded
/// packets to `completed` in arrival order.
pub struct MqttReader {
    pub buffer: Vec<u8>,
    pub state: ReadState,
    pub packet: MQTTPacket,
    pub completed: Vec<MQTTPacket>,
}

impl View for MqttReader {
    type V = ReaderView;

    open spec fn view(&self) -> ReaderView {
        ReaderView {
            state: self.state,
            pending: PendingView {
                control_type: self.packet.control_type,
                qos: self.packet.qos,
                remaining_length: self.packet.remaining_length,
            },
            buffer: self.buffer@,
            completed: Seq::new(self.completed@.len(), |i: int| self.completed@[i]@),
        }
    }
}

/// Derives the quality of service from the decoded flag bits.
fn qos_of(fh: &FixedHeader) -> (q: Option<MQTTQoS>)
    ensures
        q == spec_qos_of(*fh),
{
    if fh.control_type == ControlPacketType::Publish {
        if !fh.bit_2 && !fh.bit_1 {
            Some(MQTTQoS::AtMostOnce)
        } else if !fh.bit_2 && fh.bit_1 {
            Some(MQTTQoS::AtLeastOnce)
        } else if fh.bit_2 && !fh.bit_1 {
            Some(MQTTQoS::ExactlyOne)
        } else {
            None
        }
    } else {
        None
    }
}

impl MqttReader {
    /// A fresh reader with nothing buffered and nothing decoded.
    pub fn new() -> (r: MqttReader)
        ensures
            r@ == spec_initial_reader(),
    {
        let r = MqttReader {
            buffer: Vec::new(),
            state: ReadState::Idle,
            packet: MQTTPacket {
                control_type: ControlPacketType::Connect,
                qos: None,
                remaining_length: 0,
                variable_header: None,
                payload: Vec::new(),
            },
            completed: Vec::new(),
        };
        proof {
            assert(r@ =~~= spec_initial_reader());
        }
        r
    }

    /// Resets the in-progress packet builder after a frame was emitted.
    fn reset_pending(&mut self)
        ensures
            final(self).packet.control_type == ControlPacketType::Connect,
            final(self).packet.qos is None,
            final(self).packet.remaining_length == 0,
            final(self).buffer == old(self).buffer,
            final(self).state == old(self).state,
            final(self).completed == old(self).completed,
    {
        self.packet = MQTTPacket {
            control_type: ControlPacketType::Connect,
            qos: None,
            remaining_length: 0,
            variable_header: None,
            payload: Vec::new(),
        };
    }

    /// Decodes as far as the buffered bytes reach.
    fn drain(&mut self)
        ensures
            final(self)@ == spec_reader_step(old(self)@),
        decreases self.buffer.len(), spec_state_rank(self.state),
    {
        match self.state {
            ReadState::Idle => {
                self.state = ReadState::FixedHeader;
                self.drain();
            },
            ReadState::FixedHeader => {
                match fixed_header_parser(self.buffer.as_slice()) {
                    ReadResult::Done(fh, n) => {
                        let tail = self.buffer.split_off(n);
                        self.buffer = tail;
                        self.packet.control_type = fh.control_type;
                        self.packet.qos = qos_of(&fh);
                        self.packet.remaining_length = fh.remaining_length;
                        self.state = ReadState::VariableHeader;
                        self.drain();
                    },
                    ReadResult::NeedMoreInput(_) => {
                        proof {
                            assert(self@ =~~= spec_reader_step(old(self)@));
                        }
                    },
                    ReadResult::Failed(_) => {
                        self.state = ReadState::Disconnect;
                        self.buffer.clear();
                        proof {
                            assert(self@ =~~= spec_reader_step(old(self)@));
                        }
                    },
                }
            },
            ReadState::VariableHeader => {
                let rl = self.packet.remaining_length as usize;
                if self.buffer.len() < rl {
                    proof {
                        assert(self@ =~~= spec_reader_step(old(self)@));
                    }
                    return;
                }
                let body = slice_to_vec(slice_subrange(self.buffer.as_slice(), 0, rl));
                let tail = self.buffer.split_off(rl);
                self.buffer = tail;
                if self.packet.control_type == ControlPacketType::Connect {
                    match connect_variable_header_parser(body.as_slice()) {
                        ReadResult::Done(vh, m) => {
                            let payload = slice_to_vec(
                                slice_subrange(body.as_slice(), m, body.len()),
                            );
                            let pkt = MQTTPacket {
                                control_type: self.packet.control_type,
                                qos: self.packet.qos,
                                remaining_length: self.packet.remaining_length,
                                variable_header: Some(vh),
                                payload,
                            };
                            self.completed.push(pkt);
                            self.reset_pending();
                            self.state = ReadState::FixedHeader;
                            proof {
                                assert(self@.completed =~~= old(self)@.completed.push(
                                    PacketView {
                                        control_type: old(self)@.pending.control_type,
                                        qos: old(self)@.pending.qos,
                                        remaining_length: old(self)@.pending.remaining_length,
                                        variable_header: Some(vh@),
                                        payload: old(self)@.buffer.subrange(0, rl as int).subrange(
                                            m as int,
                                            rl as int,
                                        ),
                                    },
                                ));
                            }
                            self.drain();
                        },
                        ReadResult::NeedMoreInput(_) => {
                            self.state = ReadState::Disconnect;
                            self.buffer.clear();
                            proof {
                                assert(self@ =~~= spec_reader_step(old(self)@));
                            }
                        },
                        ReadResult::Failed(_) => {
                            self.state = ReadState::Disconnect;
                            self.buffer.clear();
                            proof {
                                assert(self@ =~~= spec_reader_step(old(self)@));
                            }
                        },
                    }
                } else {
                    let pkt = MQTTPacket {
                        control_type: self.packet.control_type,
                        qos: self.packet.qos,
                        remaining_length: self.packet.remaining_length,
                        variable_header: None,
                        payload: body,
                    };
                    self.completed.push(pkt);
                    self.reset_pending();
                    self.state = ReadState::FixedHeader;
                    proof {
                        assert(self@.completed =~~= old(self)@.completed.push(
                            PacketView {
                                control_type: old(self)@.pending.control_type,
                                qos: old(self)@.pending.qos,
                                remaining_length: old(self)@.pending.remaining_length,
                                variable_header: None,
                                payload: old(self)@.buffer.subrange(0, rl as int),
                            },
                        ));
                    }
                    self.drain();
                }
            },
            ReadState::Payload => {
                proof {
                    assert(self@ =~~= spec_reader_step(old(self)@));
                }
            },
            ReadState::Disconnect => {
                proof {
                    assert(self@ =~~= spec_reader_step(old(self)@));
                }
            },
        }
    }

    /// Handles one readiness-driven read: appends the received bytes (an
    /// empty `input` stands for a zero-length read), decodes every frame
    /// that is now complete, and reports the resulting state.
    pub fn process(&mut self, input: &[u8]) -> (st: ReadState)
        ensures
            final(self)@ == spec_process(old(self)@, input@),
            st == final(self).state,
    {
        match self.state {
            ReadState::Disconnect => {
                return self.state;
            },
            ReadState::Payload => {
                return self.state;
            },
            _ => {},
        }
        if input.len() == 0 && self.buffer.len() == 0 {
            self.state = ReadState::Disconnect;
            return self.state;
        }
        let mut i: usize = 0;
        while i < input.len()
            invariant
                0 <= i <= input.len(),
                self.buffer@ == old(self).buffer@ + input@.subrange(0, i as int),
                self.state == old(self).state,
                self.packet == old(self).packet,
                self.completed == old(self).completed,
            decreases input.len() - i,
        {
            self.buffer.push(*slice_index_get(input, i));
            proof {
                assert(self.buffer@ =~= old(self).buffer@ + input@.subrange(0, i + 1));
            }
            i = i + 1;
        }
        proof {
            assert(self.buffer@ =~= old(self).buffer@ + input@);
            assert(self@ =~~= ReaderView { buffer: old(self)@.buffer + input@, ..old(self)@ });
        }
        self.drain();
        self.state
    }
}


/// A plain byte buffer paired with a running count of consumed bytes.
pub struct ReadBuffer {
    pub buf: Vec<u8>,
    pub count: u32,
}

impl ReadBuffer {
    /// Wraps `buf` with a consumed count of zero.
    pub fn new(buf: Vec<u8>) -> (r: ReadBuffer)
        ensures
            r.buf == buf,
            r.count == 0,
    {
        ReadBuffer { buf, count: 0 }
    }

    /// Records that `n` further bytes were consumed.
    pub fn advance(&mut self, n: u32)
        requires
            old(self).count + n <= u32::MAX,
        ensures
            final(self).count == old(self).count + n,
            final(self).buf == old(self).buf,
    {
        self.count = self.count + n;
    }
}

/// Phases of a one-shot parse over a complete frame.
#[derive(Clone, Copy, Debug, PartialEq, Eq, Structural)]
pub enum ParserState {
    ReadingFixedHeader,
    ReadingVariableHeader,
    ReadingPayload,
    Invalid,
}

/// Holder for a fixed header decoded by the one-shot parsers; the
/// incremental `MqttReader` is the canonical way to drive them.
pub struct MqttParser {
    pub state: ParserState,
    pub fixed_header: Option<FixedHeader>,
}

impl MqttParser {
    /// A parser that has decoded nothing yet.
    pub fn new() -> (p: MqttParser)
        ensures
            p.state is ReadingFixedHeader,
            p.fixed_header is None,
    {
        MqttParser { state: ParserState::ReadingFixedHeader, fixed_header: None }
    }
}

} // verus!
