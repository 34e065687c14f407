//! Whole messages: a frame read from text, told apart into stream frames, whose
//! payload is decoded, and all others, and written back as text.

use vstd::prelude::*;
use vstd::utf8::{decode_utf8, encode_utf8, valid_utf8};
use crate::error::ErrorKind;
use crate::frame::{
    field, field_ends, field_start, frame_error, frame_number, frame_payload, is_plain_payload,
    lemma_field_bounds, lemma_fields_join, lemma_read_rendered, lemma_render_frame_ascii,
    well_framed, CommandType, LineMessage,
};
use crate::stream_message::{stream_error, StreamMessage};
use crate::text::{
    ascii_chars, dec_u8, hex_char_at, hex_decode, hex_encode, is_canonical_dec, is_space,
    lemma_ascii_is_utf8, lemma_dec_read_digits, lemma_digits_ascii, lemma_hex_decode_encode,
    lemma_hex_encode_decode, lemma_trim_keeps_separators, lossy_text, parse_u8, sep_count, trim, upper_text, NEWLINE, SEPARATOR,
};

verus! {

/// A message of the line protocol.
#[derive(Debug, Clone)]
pub enum CommandMessage {
    /// A frame of any command but STREAM, its payload kept as text.
    Other(LineMessage),
    /// A STREAM frame, its payload decoded.
    Stream(StreamMessage),
}

/// Why the text `m` is refused as a message, if it is.
pub open spec fn message_error(m: Seq<u8>) -> Option<ErrorKind> {
    match frame_error(m) {
        Some(e) => Some(e),
        None => if frame_number(m, 2) == 4 {
            stream_error(frame_number(m, 4), frame_payload(m))
        } else {
            None
        },
    }
}

/// The numeric fields of `m` are written without leading zeros.
pub open spec fn has_canonical_numbers(m: Seq<u8>) -> bool {
    let t = trim(m);
    &&& is_canonical_dec(field(t, 0))
    &&& is_canonical_dec(field(t, 1))
    &&& is_canonical_dec(field(t, 2))
    &&& is_canonical_dec(field(t, 3))
    &&& is_canonical_dec(field(t, 4))
}

/// The canonical form of the text of a message: the whitespace around it is
/// gone, one line feed ends it, and the payload of a stream frame is in upper case.
pub open spec fn canonicalize(m: Seq<u8>) -> Seq<u8> {
    let t = trim(m);
    if frame_number(m, 2) == 4 {
        t.subrange(0, field_start(t, 5)) + upper_text(field(t, 5)) + seq![NEWLINE]
    } else {
        t + seq![NEWLINE]
    }
}

impl CommandMessage {
    /// `self` holds what the text `m` says.
    pub open spec fn is_message(&self, m: Seq<u8>) -> bool {
        match self {
            CommandMessage::Other(line) => frame_number(m, 2) != 4 && line.is_frame(m),
            CommandMessage::Stream(stream) => frame_number(m, 2) == 4 && stream.is_stream(
                frame_number(m, 0),
                frame_number(m, 1),
                frame_number(m, 4),
                frame_number(m, 3),
                frame_payload(m),
            ),
        }
    }

    /// A stream frame is held decoded, never as text.
    pub open spec fn wf(&self) -> bool {
        match self {
            CommandMessage::Other(line) => line.command != CommandType::STREAM,
            CommandMessage::Stream(stream) => stream.wf(),
        }
    }

    /// The bytes that `self` is written as.
    pub open spec fn wire(&self) -> Seq<u8> {
        match self {
            CommandMessage::Other(line) => line.wire(),
            CommandMessage::Stream(stream) => stream.wire(),
        }
    }

    /// Reads a message from the bytes of one line.
    pub fn parse(m: &[u8]) -> (r: Result<CommandMessage, ErrorKind>)
        ensures
            match r {
                Ok(msg) => message_error(m@) is None && msg.is_message(m@) && msg.wf(),
                Err(e) => message_error(m@) == Some(e),
            },
    {
        let line = match LineMessage::parse(m) {
            Ok(line) => line,
            Err(e) => {
                return Err(e);
            },
        };
        match line.command {
            CommandType::STREAM => {
                match StreamMessage::build(
                    line.node_id,
                    line.child_sensor_id,
                    line.sub_type,
                    line.ack,
                    line.payload.as_slice(),
                ) {
                    Ok(stream) => Ok(CommandMessage::Stream(stream)),
                    Err(e) => Err(e),
                }
            },
            _ => Ok(CommandMessage::Other(line)),
        }
    }

    /// Reads a message from one line of text.
    pub fn new(command_message: &String) -> (r: Result<CommandMessage, ErrorKind>)
        ensures
            match r {
                Ok(msg) => message_error(encode_utf8(command_message@)) is None && msg.is_message(
                    encode_utf8(command_message@),
                ) && msg.wf(),
                Err(e) => message_error(encode_utf8(command_message@)) == Some(e),
            },
    {
        CommandMessage::parse(command_message.as_str().as_bytes())
    }

    /// Writes the message out as the bytes of one line.
    pub fn serialize(&self) -> (r: Vec<u8>)
        ensures
            r@ == self.wire(),
    {
        match self {
            CommandMessage::Other(line) => line.serialize(),
            CommandMessage::Stream(stream) => stream.serialize(),
        }
    }

    /// Writes the message out as one line of text: the characters that the
    /// bytes encode where they are valid UTF-8. A stream frame is always
    /// such text, a character for each byte.
    pub fn to_string(&self) -> (r: String)
        ensures
            r@ == lossy_text(self.wire()),
            valid_utf8(self.wire()) ==> r@ == decode_utf8(self.wire()),
            self is Stream ==> r@ == ascii_chars(self.wire()),
    {
        match self {
            CommandMessage::Other(line) => line.to_string(),
            CommandMessage::Stream(stream) => {
                proof {
                    lemma_digits_ascii(0, stream.payload.bytes());
                    lemma_render_frame_ascii(
                        stream.node_id,
                        stream.child_sensor_id,
                        4,
                        stream.ack,
                        stream.sub_type.number(),
                        hex_encode(stream.payload.bytes()),
                    );
                    lemma_ascii_is_utf8(stream.wire());
                }
                stream.to_string()
            },
        }
    }

    /// Writing a message out and reading the text gives the message again,
    /// as long as the payload of a frame that is no stream frame is plain:
    /// without separators, and without whitespace at its ends.
    pub proof fn lemma_parse_serialized(&self)
        requires
            self.wf(),
            match self {
                CommandMessage::Other(line) => is_plain_payload(line.payload@),
                CommandMessage::Stream(_) => true,
            },
        ensures
            message_error(self.wire()) is None,
            self.is_message(self.wire()),
    {
        match self {
            CommandMessage::Other(line) => {
                lemma_read_rendered(
                    line.node_id,
                    line.child_sensor_id,
                    line.command.number(),
                    line.ack,
                    line.sub_type,
                    line.payload@,
                );
            },
            CommandMessage::Stream(stream) => {
                let bytes = stream.payload.bytes();
                let number = stream.sub_type.number();
                lemma_hex_is_plain(bytes);
                lemma_hex_encode_decode(bytes);
                stream.payload.lemma_bytes_decode(number);
                lemma_read_rendered(
                    stream.node_id,
                    stream.child_sensor_id,
                    4,
                    stream.ack,
                    number,
                    hex_encode(bytes),
                );
            },
        }
    }

    /// Reading a message whose numbers have no leading zeros and writing it
    /// out again gives the canonical form of what was read.
    pub proof fn lemma_round_trip(&self, m: Seq<u8>)
        requires
            message_error(m) is None,
            self.is_message(m),
            has_canonical_numbers(m),
        ensures
            self.wire() == canonicalize(m),
    {
        let t = trim(m);
        lemma_fields_join(t);
        lemma_dec_read_digits(field(t, 0));
        lemma_dec_read_digits(field(t, 1));
        lemma_dec_read_digits(field(t, 2));
        lemma_dec_read_digits(field(t, 3));
        lemma_dec_read_digits(field(t, 4));
        match self {
            CommandMessage::Other(line) => {
                assert(line.payload@ == field(t, 5));
            },
            CommandMessage::Stream(stream) => {
                let text = field(t, 5);
                lemma_hex_decode_encode(text);
                stream.payload.lemma_decode_bytes(frame_number(m, 4), hex_decode(text).unwrap());
            },
        }
    }
}

/// Hexadecimal text is a plain payload.
pub proof fn lemma_hex_is_plain(b: Seq<u8>)
    ensures
        is_plain_payload(hex_encode(b)),
{
    let text = hex_encode(b);
    assert forall|i: int| 0 <= i < text.len() implies #[trigger] text[i] != SEPARATOR && !is_space(
        text[i],
    ) by {
        assert(text[i] == hex_char_at(b, i));
    }
    if text.len() > 0 {
        assert(!is_space(text[0]));
        assert(!is_space(text[text.len() - 1]));
    }
}

/// A text that does not hold exactly five separators is refused as malformed,
/// and no other text is.
pub proof fn lemma_framing(m: Seq<u8>)
    ensures
        sep_count(m, 0) != 5 <==> message_error(m) == Some(ErrorKind::MalformedFrame),
{
    lemma_trim_keeps_separators(m);
    match frame_error(m) {
        Some(_) => {},
        None => {
            if frame_number(m, 2) == 4 {
                assert(stream_error(frame_number(m, 4), frame_payload(m)) != Some(
                    ErrorKind::MalformedFrame,
                ));
            }
        },
    }
}

/// The command that the third field of `m` names, where `m` has six fields
/// and the third is a number from 0 to 4.
pub open spec fn command_of(m: Seq<u8>) -> Option<CommandType> {
    if well_framed(m) {
        match dec_u8(field(m, 2)) {
            Some(n) => CommandType::of_number(n),
            None => None,
        }
    } else {
        None
    }
}

/// The command of a line of text, without reading the rest of it.
pub fn command_type(message_string: &String) -> (r: Option<CommandType>)
    ensures
        r == command_of(encode_utf8(message_string@)),
{
    let m = message_string.as_str().as_bytes();
    let (e1, e2) = match field_ends(m) {
        Some((_, e1, e2, _, _)) => (e1, e2),
        None => {
            return None;
        },
    };
    proof {
        lemma_field_bounds(m@);
    }
    match parse_u8(vstd::slice::slice_subrange(m, e1 + 1, e2)) {
        Some(n) => CommandType::_u8(n),
        None => None,
    }
}

} // verus!
