//! The wire-protocol codec.
//!
//! Every message travels as a frame of exactly ten bytes.  The logical
//! payload is the ASCII text `"<type-code>|<sender>"`, left-aligned, with the
//! rest of the frame padded by zero bytes; a decoder also tolerates trailing
//! newline bytes.  Type codes are Request = 1, Grant = 2, Release = 3; any
//! other code decodes to `Unknown`.  An `Unknown` message re-encodes with the
//! fixed sentinel code 4, which is distinct from 0 and from every real code.
//!
//! The codec is pure and stateless: its whole behaviour is the pair of
//! specification functions `decode_spec` and `encode_spec` over byte
//! sequences.

use vstd::prelude::*;
use vstd::utf8::encode_utf8;
use vstd::utf8::is_leading_byte_width_1;
use vstd::utf8::partial_valid_utf8;
use vstd::utf8::partial_valid_utf8_extend_ascii_block;
use vstd::utf8::valid_utf8;

verus! {

/// The kind of a wire message.
#[derive(Clone, Copy, PartialEq, Eq, Structural, Debug)]
pub enum MessageType {
    /// Sent by a process to request access to the critical resource.  Code 1.
    Request,
    /// Sent by the scheduler to hand the resource to a process.  Code 2.
    Grant,
    /// Sent by a process when it leaves the critical resource.  Code 3.
    Release,
    /// Any message whose code is none of the above.
    Unknown,
}

/// One unit of the wire protocol: a message kind plus the sender's process id.
#[derive(Clone, Copy, PartialEq, Eq, Structural, Debug)]
pub struct Message {
    pub message_type: MessageType,
    pub sender: u8,
}

/// Why a frame failed to decode.
#[derive(Clone, Copy, PartialEq, Eq, Structural, Debug)]
pub enum DecodeError {
    /// A field is missing or not a decimal number that fits in eight bits.
    Malformed,
    /// The frame is not valid text.
    Encoding,
}

/// The formatted text would not fit in one frame.  With the codes and sender
/// ids this protocol admits, the text is at most five bytes long, so encoding
/// in fact always succeeds; the error exists as a defensive bound.
#[derive(Clone, Copy, PartialEq, Eq, Structural, Debug)]
pub struct EncodingError;

/// The message kind a numeric type code decodes to.
pub open spec fn type_of_code(code: u8) -> MessageType {
    if code == 1 {
        MessageType::Request
    } else if code == 2 {
        MessageType::Grant
    } else if code == 3 {
        MessageType::Release
    } else {
        MessageType::Unknown
    }
}

/// The numeric code a message kind encodes as.  `Unknown` uses the sentinel 4.
pub open spec fn code_of_type(t: MessageType) -> u8 {
    match t {
        MessageType::Request => 1,
        MessageType::Grant => 2,
        MessageType::Release => 3,
        MessageType::Unknown => 4,
    }
}

/// An ASCII decimal digit.
pub open spec fn is_digit_byte(b: u8) -> bool {
    48 <= b && b <= 57
}

/// Every byte of the sequence is an ASCII decimal digit.
pub open spec fn all_digits(s: Seq<u8>) -> bool {
    forall|i: int| 0 <= i < s.len() ==> is_digit_byte(#[trigger] s[i])
}

/// The number the digit sequence denotes, most significant digit first.
pub open spec fn decimal_value(s: Seq<u8>) -> int
    decreases s.len(),
{
    if s.len() == 0 {
        0
    } else {
        decimal_value(s.drop_last()) * 10 + (s.last() - 48)
    }
}

/// A field that parses as a decimal unsigned eight-bit integer: nonempty, all
/// digits, and small enough.
pub open spec fn is_decimal_field(s: Seq<u8>) -> bool {
    s.len() > 0 && all_digits(s) && decimal_value(s) <= 255
}

/// Index of the first separator byte `b'|'`, or the length when there is none.
pub open spec fn sep_index(s: Seq<u8>) -> int
    decreases s.len(),
{
    if s.len() == 0 {
        0
    } else if s[0] == 124 {
        0
    } else {
        1 + sep_index(s.drop_first())
    }
}

/// Splits the logical text on its first separator into a type-code field and
/// a sender field (the sender field ends at the next separator, if any; bytes
/// after a second separator are ignored) and parses both fields as decimal
/// eight-bit integers.
pub open spec fn parse_fields(s: Seq<u8>) -> Option<(u8, u8)> {
    let i = sep_index(s);
    if i == s.len() {
        None
    } else {
        let code_field = s.take(i);
        let rest = s.skip(i + 1);
        let sender_field = rest.take(sep_index(rest));
        if is_decimal_field(code_field) && is_decimal_field(sender_field) {
            Some(((decimal_value(code_field) as u8), (decimal_value(sender_field) as u8)))
        } else {
            None
        }
    }
}

/// Decoding of a logical text that is already known to be valid text: split
/// and parse the two fields, or fail as malformed.
pub open spec fn text_decode_spec(s: Seq<u8>) -> Result<Message, DecodeError> {
    match parse_fields(s) {
        Some(fields) => Ok(
            Message { message_type: type_of_code(fields.0), sender: fields.1 },
        ),
        None => Err(DecodeError::Malformed),
    }
}

/// Strips trailing zero bytes and trailing newline bytes, in any order,
/// repeatedly, from the end.
pub open spec fn trim_wire_padding(s: Seq<u8>) -> Seq<u8>
    decreases s.len(),
{
    if s.len() > 0 && (s.last() == 0 || s.last() == 10) {
        trim_wire_padding(s.drop_last())
    } else {
        s
    }
}

/// Full decoding of a raw frame: trim the padding, reject byte sequences that
/// are not valid text, then split and parse the fields.
pub open spec fn decode_spec(raw: Seq<u8>) -> Result<Message, DecodeError> {
    if valid_utf8(trim_wire_padding(raw)) {
        text_decode_spec(trim_wire_padding(raw))
    } else {
        Err(DecodeError::Encoding)
    }
}

/// The ASCII decimal digits of `n`, without leading zeros.
pub open spec fn decimal_digits(n: u8) -> Seq<u8> {
    if n < 10 {
        seq![(n + 48) as u8]
    } else if n < 100 {
        seq![(n / 10 + 48) as u8, (n % 10 + 48) as u8]
    } else {
        seq![(n / 100 + 48) as u8, ((n / 10) % 10 + 48) as u8, (n % 10 + 48) as u8]
    }
}

/// The logical text `"<code>|<sender>"` of a frame, before padding.
pub open spec fn frame_text(code: u8, sender: u8) -> Seq<u8> {
    decimal_digits(code) + seq![124u8] + decimal_digits(sender)
}

/// A whole ten-byte frame carrying the given code and sender: the logical
/// text followed by zero padding.
pub open spec fn frame_spec(code: u8, sender: u8) -> Seq<u8> {
    frame_text(code, sender) + Seq::new((10 - frame_text(code, sender).len()) as nat, |i: int| 0u8)
}

/// The ten-byte frame a message encodes to.
pub open spec fn encode_spec(t: MessageType, sender: u8) -> Seq<u8> {
    frame_spec(code_of_type(t), sender)
}

/// The value of a digit sequence is never negative.
proof fn lemma_decimal_value_nonneg(s: Seq<u8>)
    requires
        all_digits(s),
    ensures
        decimal_value(s) >= 0,
    decreases s.len(),
{
    if s.len() > 0 {
        assert(all_digits(s.drop_last()));
        lemma_decimal_value_nonneg(s.drop_last());
    }
}

/// Extending a digit sequence can only grow its value.
proof fn lemma_decimal_value_prefix_le(s: Seq<u8>, i: int)
    requires
        all_digits(s),
        0 <= i <= s.len(),
    ensures
        decimal_value(s.take(i)) <= decimal_value(s),
    decreases s.len() - i,
{
    if i == s.len() {
        assert(s.take(i) =~= s);
    } else {
        assert(all_digits(s.drop_last()));
        lemma_decimal_value_nonneg(s.drop_last());
        assert(s.drop_last().take(i) =~= s.take(i));
        lemma_decimal_value_prefix_le(s.drop_last(), i);
    }
}

/// `sep_index` is the position of the first separator byte: nothing before it
/// is a separator, and it points at one unless there is none at all.
proof fn lemma_sep_index_bounds(s: Seq<u8>)
    ensures
        0 <= sep_index(s) <= s.len(),
        sep_index(s) < s.len() ==> s[sep_index(s)] == 124,
        forall|j: int| 0 <= j < sep_index(s) ==> #[trigger] s[j] != 124,
    decreases s.len(),
{
    if s.len() > 0 && s[0] != 124 {
        lemma_sep_index_bounds(s.drop_first());
        assert(forall|j: int|
            0 <= j < sep_index(s.drop_first()) ==> #[trigger] s.drop_first()[j] != 124);
        assert(forall|j: int| 1 <= j < sep_index(s) ==> s[j] == s.drop_first()[j - 1]);
    }
}

/// Conversely, the first position that holds a separator is `sep_index`.
proof fn lemma_sep_index_at(s: Seq<u8>, i: int)
    requires
        0 <= i < s.len(),
        s[i] == 124,
        forall|j: int| 0 <= j < i ==> #[trigger] s[j] != 124,
    ensures
        sep_index(s) == i,
    decreases s.len(),
{
    if i > 0 {
        assert(forall|j: int| 0 <= j < i - 1 ==> #[trigger] s.drop_first()[j] == s[j + 1]);
        lemma_sep_index_at(s.drop_first(), i - 1);
    }
}

/// A sequence without separators has its `sep_index` at the end.
proof fn lemma_sep_index_none(s: Seq<u8>)
    requires
        forall|j: int| 0 <= j < s.len() ==> #[trigger] s[j] != 124,
    ensures
        sep_index(s) == s.len(),
{
    lemma_sep_index_bounds(s);
}

/// Trimming ignores a trailing zero or newline byte.
proof fn lemma_trim_one(s: Seq<u8>, b: u8)
    requires
        b == 0 || b == 10,
    ensures
        trim_wire_padding(s.push(b)) == trim_wire_padding(s),
{
    assert(s.push(b).drop_last() =~= s);
}

/// A sequence that does not end in padding trims to itself.
proof fn lemma_trim_fixed(s: Seq<u8>)
    requires
        s.len() == 0 || (s.last() != 0 && s.last() != 10),
    ensures
        trim_wire_padding(s) == s,
{
}

/// A sequence of bytes below 0x80 (plain ASCII) is valid text.
pub(crate) proof fn lemma_ascii_valid_utf8(s: Seq<u8>)
    requires
        forall|i: int| 0 <= i < s.len() ==> #[trigger] s[i] < 0x80,
    ensures
        valid_utf8(s),
{
    assert(forall|i: int| 0 <= i < s.len() ==> is_leading_byte_width_1(#[trigger] s[i]));
    assert(valid_utf8(s.subrange(0, 0)));
    assert(partial_valid_utf8(s, 0));
    partial_valid_utf8_extend_ascii_block(s, 0, s.len() as int);
    assert(s.subrange(0, s.len() as int) =~= s);
}

impl MessageType {
    /// The numeric code this kind encodes as on the wire.
    pub fn to_code(&self) -> (code: u8)
        ensures
            code == code_of_type(*self),
    {
        match self {
            MessageType::Request => 1,
            MessageType::Grant => 2,
            MessageType::Release => 3,
            MessageType::Unknown => 4,
        }
    }
}

impl From<u8> for MessageType {
    fn from(code: u8) -> (t: MessageType) {
        if code == 1 {
            MessageType::Request
        } else if code == 2 {
            MessageType::Grant
        } else if code == 3 {
            MessageType::Release
        } else {
            MessageType::Unknown
        }
    }
}

impl vstd::std_specs::convert::FromSpecImpl<u8> for MessageType {
    open spec fn obeys_from_spec() -> bool {
        true
    }

    open spec fn from_spec(code: u8) -> MessageType {
        type_of_code(code)
    }
}

/// The digits of `n` form a decimal field that denotes `n` itself, and every
/// digit is plain ASCII.
pub(crate) proof fn lemma_decimal_digits_value(n: u8)
    ensures
        is_decimal_field(decimal_digits(n)),
        decimal_value(decimal_digits(n)) == n,
        1 <= decimal_digits(n).len() <= 3,
{
    reveal_with_fuel(decimal_value, 4);
    let d = decimal_digits(n);
    let nn = n as int;
    if n < 10 {
        assert(d.drop_last() =~= Seq::<u8>::empty());
    } else if n < 100 {
        assert(d.drop_last() =~= seq![(n / 10 + 48) as u8]);
        assert(d.drop_last().drop_last() =~= Seq::<u8>::empty());
        assert(nn / 10 * 10 + nn % 10 == nn);
        assert(nn / 10 < 10);
    } else {
        assert(d.drop_last() =~= seq![(n / 100 + 48) as u8, ((n / 10) % 10 + 48) as u8]);
        assert(d.drop_last().drop_last() =~= seq![(n / 100 + 48) as u8]);
        assert(d.drop_last().drop_last().drop_last() =~= Seq::<u8>::empty());
        assert((nn / 10) / 10 == nn / 100);
        assert(nn / 10 == (nn / 10) / 10 * 10 + (nn / 10) % 10);
        assert(nn == nn / 10 * 10 + nn % 10);
        assert((nn / 100 * 10 + (nn / 10) % 10) * 10 + nn % 10 == nn);
        assert(nn / 100 < 10 && (nn / 10) % 10 < 10);
    }
}

/// Appends the decimal digits of `n` to the buffer.
pub(crate) fn push_decimal(out: &mut Vec<u8>, n: u8)
    ensures
        final(out)@ == old(out)@ + decimal_digits(n),
{
    if n < 10 {
        out.push(n + 48);
    } else if n < 100 {
        out.push(n / 10 + 48);
        out.push(n % 10 + 48);
    } else {
        out.push(n / 100 + 48);
        out.push((n / 10) % 10 + 48);
        out.push(n % 10 + 48);
    }
    proof {
        assert(out@ =~= old(out)@ + decimal_digits(n));
    }
}

/// A run of zero bytes, as a frame's padding.
pub open spec fn zero_padding(k: nat) -> Seq<u8> {
    Seq::new(k, |i: int| 0u8)
}

/// Trimming strips any run of trailing zero bytes.
proof fn lemma_trim_zeros(s: Seq<u8>, k: nat)
    ensures
        trim_wire_padding(s + zero_padding(k)) == trim_wire_padding(s),
    decreases k,
{
    if k > 0 {
        assert((s + zero_padding(k)).drop_last() =~= s + zero_padding((k - 1) as nat));
        lemma_trim_zeros(s, (k - 1) as nat);
    } else {
        assert(s + zero_padding(0) =~= s);
    }
}

/// A whole frame decodes to the code and sender it was built from: the
/// padding is trimmed away, the digits are valid text, and the two fields
/// parse back to the numbers they spell.
pub proof fn lemma_decode_frame(code: u8, sender: u8)
    ensures
        decode_spec(frame_spec(code, sender)) == Ok::<Message, DecodeError>(
            Message { message_type: type_of_code(code), sender },
        ),
{
    lemma_decimal_digits_value(code);
    lemma_decimal_digits_value(sender);
    let dc = decimal_digits(code);
    let ds = decimal_digits(sender);
    let text = frame_text(code, sender);
    let cl = dc.len() as int;
    let tl = text.len() as int;

    assert(forall|j: int| 0 <= j < cl ==> text[j] == dc[j]);
    assert(text[cl] == 124);
    assert(forall|j: int| cl < j < tl ==> text[j] == ds[j - cl - 1]);

    lemma_trim_zeros(text, (10 - text.len()) as nat);
    assert(text.last() == ds.last());
    lemma_trim_fixed(text);
    assert(trim_wire_padding(frame_spec(code, sender)) == text);

    assert(forall|i: int| 0 <= i < tl ==> #[trigger] text[i] < 0x80);
    lemma_ascii_valid_utf8(text);

    lemma_sep_index_at(text, cl);
    assert(text.take(cl) =~= dc);
    let rest = text.skip(cl + 1);
    assert(rest =~= ds);
    lemma_sep_index_none(ds);
    assert(rest.take(sep_index(rest)) =~= ds);
    assert(parse_fields(text) == Some((code, sender)));
}

/// Round trip: decoding an encoded message gives the message back, for every
/// message kind and every sender id.
pub proof fn lemma_round_trip(t: MessageType, sender: u8)
    ensures
        decode_spec(encode_spec(t, sender)) == Ok::<Message, DecodeError>(
            Message { message_type: t, sender },
        ),
{
    lemma_decode_frame(code_of_type(t), sender);
}

/// A frame carrying any code outside {1, 2, 3} decodes to `Unknown` with the
/// sender preserved.
pub proof fn lemma_unknown_code_decode(code: u8, sender: u8)
    requires
        code != 1,
        code != 2,
        code != 3,
    ensures
        decode_spec(frame_spec(code, sender)) == Ok::<Message, DecodeError>(
            Message { message_type: MessageType::Unknown, sender },
        ),
{
    lemma_decode_frame(code, sender);
}

/// Zero padding and a trailing newline byte are tolerated identically: a
/// frame decodes the same whether or not a newline follows its padding.
pub proof fn lemma_decode_padding_newline(raw: Seq<u8>, k: nat)
    ensures
        decode_spec(raw + zero_padding(k)) == decode_spec(raw + zero_padding(k) + seq![10u8]),
{
    lemma_trim_zeros(raw, k);
    assert((raw + zero_padding(k)).push(10u8) =~= raw + zero_padding(k) + seq![10u8]);
    lemma_trim_one(raw + zero_padding(k), 10u8);
}

/// Decoding succeeds only on a well-shaped frame: after trimming, the text
/// holds a separator, and both the code field and the sender field are
/// decimal numbers that fit in eight bits.  A frame with no separator or a
/// non-numeric field therefore always yields a decode error.
pub proof fn lemma_decode_ok_frame_shape(raw: Seq<u8>)
    ensures
        decode_spec(raw) is Ok ==> {
            let text = trim_wire_padding(raw);
            let i = sep_index(text);
            let rest = text.skip(i + 1);
            &&& i < text.len()
            &&& is_decimal_field(text.take(i))
            &&& is_decimal_field(rest.take(sep_index(rest)))
        },
{
    lemma_sep_index_bounds(trim_wire_padding(raw));
}

/// A frame whose trimmed text has no separator at all never decodes.
pub proof fn lemma_decode_missing_separator(raw: Seq<u8>)
    requires
        forall|i: int|
            0 <= i < trim_wire_padding(raw).len() ==> #[trigger] trim_wire_padding(raw)[i] != 124,
    ensures
        decode_spec(raw) is Err,
{
    lemma_sep_index_none(trim_wire_padding(raw));
}

/// The display name of a message kind, as ASCII bytes: `REQUEST`, `GRANT`,
/// `RELEASE` or `Unknown`.
pub open spec fn type_name_bytes(t: MessageType) -> Seq<u8> {
    match t {
        MessageType::Request => seq![82u8, 69u8, 81u8, 85u8, 69u8, 83u8, 84u8],
        MessageType::Grant => seq![71u8, 82u8, 65u8, 78u8, 84u8],
        MessageType::Release => seq![82u8, 69u8, 76u8, 69u8, 65u8, 83u8, 69u8],
        MessageType::Unknown => seq![85u8, 110u8, 107u8, 110u8, 111u8, 119u8, 110u8],
    }
}

/// The human-readable form of a message, as ASCII bytes:
/// `"<TYPE_NAME>|<sender>"`.
pub open spec fn display_bytes(m: Message) -> Seq<u8> {
    type_name_bytes(m.message_type) + seq![124u8] + decimal_digits(m.sender)
}

/// Appends the display name of a message kind to the buffer.
fn push_type_name(out: &mut Vec<u8>, t: MessageType)
    ensures
        final(out)@ == old(out)@ + type_name_bytes(t),
{
    match t {
        MessageType::Request => {
            out.push(82);
            out.push(69);
            out.push(81);
            out.push(85);
            out.push(69);
            out.push(83);
            out.push(84);
        },
        MessageType::Grant => {
            out.push(71);
            out.push(82);
            out.push(65);
            out.push(78);
            out.push(84);
        },
        MessageType::Release => {
            out.push(82);
            out.push(69);
            out.push(76);
            out.push(69);
            out.push(65);
            out.push(83);
            out.push(69);
        },
        MessageType::Unknown => {
            out.push(85);
            out.push(110);
            out.push(107);
            out.push(110);
            out.push(111);
            out.push(119);
            out.push(110);
        },
    }
    proof {
        assert(out@ =~= old(out)@ + type_name_bytes(t));
    }
}

/// Relies on `String::from_utf8`: it returns `Ok` exactly when the bytes are
/// a valid UTF-8 encoding, and then returns the string those bytes encode.
#[verifier::external_body]
pub(crate) fn string_from_utf8(bytes: Vec<u8>) -> (r: Option<String>)
    ensures
        r is Some <==> valid_utf8(bytes@),
        r matches Some(text) ==> encode_utf8(text@) == bytes@,
{
    String::from_utf8(bytes).ok()
}

/// Parses `s[start..end]` as a decimal unsigned eight-bit integer.
fn parse_u8_field(s: &[u8], start: usize, end: usize) -> (r: Option<u8>)
    requires
        start <= end <= s@.len(),
    ensures
        r is Some <==> is_decimal_field(s@.subrange(start as int, end as int)),
        r matches Some(v) ==> v == decimal_value(s@.subrange(start as int, end as int)),
{
    let ghost field = s@.subrange(start as int, end as int);
    if start == end {
        return None;
    }
    let mut value: u16 = 0;
    let mut i: usize = start;
    while i < end
        invariant
            start <= i <= end <= s@.len(),
            field == s@.subrange(start as int, end as int),
            all_digits(field.take(i - start)),
            value == decimal_value(field.take(i - start)),
            value <= 255,
        decreases end - i,
    {
        let b = s[i];
        proof {
            assert(field.take(i + 1 - start).drop_last() =~= field.take(i - start));
            assert(field.take(i + 1 - start).last() == s@[i as int]);
        }
        if b < 48 || b > 57 {
            proof {
                assert(!all_digits(field)) by {
                    assert(field[i - start] == s@[i as int]);
                }
            }
            return None;
        }
        value = value * 10 + (b - 48) as u16;
        if value > 255 {
            proof {
                assert(!is_decimal_field(field)) by {
                    if all_digits(field) {
                        lemma_decimal_value_prefix_le(field, i + 1 - start);
                    }
                }
            }
            return None;
        }
        i = i + 1;
    }
    proof {
        assert(field.take(end - start) =~= field);
    }
    Some(value as u8)
}

/// Splits the text on its separators and parses the two fields, as
/// `text_decode_spec` describes.
fn parse_frame(s: &[u8]) -> (r: Result<Message, DecodeError>)
    ensures
        r == text_decode_spec(s@),
{
    let n = s.len();
    let mut i: usize = 0;
    while i < n && s[i] != 124
        invariant
            0 <= i <= n == s@.len(),
            forall|j: int| 0 <= j < i ==> #[trigger] s@[j] != 124,
        decreases n - i,
    {
        i = i + 1;
    }
    if i == n {
        proof {
            lemma_sep_index_none(s@);
        }
        return Err(DecodeError::Malformed);
    }
    proof {
        lemma_sep_index_at(s@, i as int);
    }
    let mut k: usize = i + 1;
    while k < n && s[k] != 124
        invariant
            i < k <= n == s@.len(),
            forall|j: int| i < j < k ==> #[trigger] s@[j] != 124,
        decreases n - k,
    {
        k = k + 1;
    }
    let ghost rest = s@.skip(i + 1);
    proof {
        assert(forall|j: int| 0 <= j < rest.len() ==> rest[j] == s@[j + i + 1]);
        if k < n {
            lemma_sep_index_at(rest, k - i - 1);
        } else {
            lemma_sep_index_none(rest);
        }
        assert(sep_index(rest) == k - i - 1);
        assert(rest.take(k - i - 1) =~= s@.subrange(i + 1, k as int));
        assert(s@.take(i as int) =~= s@.subrange(0, i as int));
    }
    let code = match parse_u8_field(s, 0, i) {
        Some(c) => c,
        None => {
            return Err(DecodeError::Malformed);
        },
    };
    let sender = match parse_u8_field(s, i + 1, k) {
        Some(v) => v,
        None => {
            return Err(DecodeError::Malformed);
        },
    };
    Ok(Message::new(sender, code))
}

impl Message {
    /// Builds a message from a sender id and a numeric type code.
    pub fn new(sender: u8, message_type: u8) -> (message: Message)
        ensures
            message.message_type == type_of_code(message_type),
            message.sender == sender,
    {
        Message { message_type: MessageType::from(message_type), sender }
    }

    /// Decodes the logical text of a message, already stripped of padding:
    /// `"<code>|<sender>"` with both fields decimal eight-bit integers.
    pub fn from_string(message: String) -> (r: Result<Message, DecodeError>)
        ensures
            r == text_decode_spec(encode_utf8(message@)),
    {
        parse_frame(message.as_str().as_bytes())
    }

    /// Decodes a raw frame: strips trailing zero and newline bytes, rejects
    /// bytes that are not valid text, then parses the two fields.  Never
    /// panics, whatever the frame holds.
    pub fn from_bytes(raw_bytes: &[u8]) -> (r: Result<Message, DecodeError>)
        ensures
            r == decode_spec(raw_bytes@),
    {
        let mut bytes: Vec<u8> = vstd::slice::slice_to_vec(raw_bytes);
        while bytes.len() > 0 && (bytes[bytes.len() - 1] == 0 || bytes[bytes.len() - 1] == 10)
            invariant
                trim_wire_padding(bytes@) == trim_wire_padding(raw_bytes@),
            decreases bytes@.len(),
    {
            proof {
                assert(bytes@.drop_last().push(bytes@.last()) =~= bytes@);
                lemma_trim_one(bytes@.drop_last(), bytes@.last());
                assert(bytes@.subrange(0, bytes@.len() - 1) =~= bytes@.drop_last());
            }
            bytes.pop();
        }
        proof {
            lemma_trim_fixed(bytes@);
        }
        match string_from_utf8(bytes) {
            Some(text) => Self::from_string(text),
            None => Err(DecodeError::Encoding),
        }
    }

    /// Encodes the message as one ten-byte frame: the text
    /// `"<code>|<sender>"` padded with zero bytes.  The text of any message
    /// this type can hold fits the frame, so encoding always succeeds; the
    /// length check stands as a defensive bound.
    pub fn to_bytes(&self) -> (r: Result<Vec<u8>, EncodingError>)
        ensures
            r is Ok,
            r matches Ok(frame) ==> frame@ == encode_spec(self.message_type, self.sender)
                && frame@.len() == 10,
    {
        let code = self.message_type.to_code();
        proof {
            lemma_decimal_digits_value(code);
            lemma_decimal_digits_value(self.sender);
        }
        let mut frame: Vec<u8> = Vec::new();
        push_decimal(&mut frame, code);
        frame.push(124);
        push_decimal(&mut frame, self.sender);
        let ghost text = frame_text(code, self.sender);
        proof {
            assert(frame@ =~= text);
        }
        if frame.len() > 10 {
            return Err(EncodingError);
        }
        while frame.len() < 10
            invariant
                text.len() <= frame@.len() <= 10,
                frame@.take(text.len() as int) == text,
                forall|j: int| text.len() <= j < frame@.len() ==> #[trigger] frame@[j] == 0,
            decreases 10 - frame@.len(),
        {
            let ghost pre = frame@;
            frame.push(0);
            proof {
                assert(frame@.take(text.len() as int) =~= pre.take(text.len() as int));
            }
        }
        proof {
            assert(frame@ =~= encode_spec(self.message_type, self.sender));
        }
        Ok(frame)
    }

    /// The human-readable form `"<TYPE_NAME>|<sender>"`, for logging.
    pub fn to_string(&self) -> (r: String)
        ensures
            encode_utf8(r@) == display_bytes(*self),
    {
        let mut text: Vec<u8> = Vec::new();
        push_type_name(&mut text, self.message_type);
        text.push(124);
        push_decimal(&mut text, self.sender);
        proof {
            lemma_decimal_digits_value(self.sender);
            assert(text@ =~= display_bytes(*self));
            assert(forall|i: int| 0 <= i < text@.len() ==> #[trigger] text@[i] < 0x80);
            lemma_ascii_valid_utf8(text@);
        }
        match string_from_utf8(text) {
            Some(s) => s,
            None => {
                proof {
                    assert(false);
                }
                String::new()
            },
        }
    }
}

} // verus!
