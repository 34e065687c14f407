//! Stream frames: the firmware sub-protocol carried as hexadecimal payloads of
//! little-endian 16-bit words.

use vstd::prelude::*;
use crate::error::ErrorKind;
use crate::firmware::{block_of, Firmware};
use crate::frame::{lemma_render_frame_ascii, render_frame, write_frame};
use crate::text::{
    ascii_chars, decode_hex, hex_decode, hex_encode, is_hex_text, lemma_ascii_is_utf8,
    lemma_digits_ascii, lossy_text, push_hex, string_of_bytes,
};

verus! {

/// What a stream frame carries, by the number in its type field.
#[derive(Debug, Clone, Copy, PartialEq, Eq, Structural)]
pub enum StreamType {
    StFirmwareConfigRequest,
    StFirmwareConfigResponse,
    StFirmwareRequest,
    StFirmwareResponse,
    /// Any other number; the payload is carried and not looked into.
    StOpaque(u8),
}

impl StreamType {
    /// The number in the type field.
    pub open spec fn number(self) -> u8 {
        match self {
            StreamType::StFirmwareConfigRequest => 0,
            StreamType::StFirmwareConfigResponse => 1,
            StreamType::StFirmwareRequest => 2,
            StreamType::StFirmwareResponse => 3,
            StreamType::StOpaque(n) => n,
        }
    }

    /// An opaque type never hides one of the four known numbers.
    pub open spec fn wf(self) -> bool {
        match self {
            StreamType::StOpaque(n) => n >= 4,
            _ => true,
        }
    }

    /// The type that `value` stands for.
    pub fn from_u8(value: u8) -> (r: StreamType)
        ensures
            r.number() == value,
            r.wf(),
    {
        match value {
            0 => StreamType::StFirmwareConfigRequest,
            1 => StreamType::StFirmwareConfigResponse,
            2 => StreamType::StFirmwareRequest,
            3 => StreamType::StFirmwareResponse,
            _ => StreamType::StOpaque(value),
        }
    }

    /// The number in the type field.
    pub fn to_u8(self) -> (r: u8)
        ensures
            r == self.number(),
    {
        match self {
            StreamType::StFirmwareConfigRequest => 0,
            StreamType::StFirmwareConfigResponse => 1,
            StreamType::StFirmwareRequest => 2,
            StreamType::StFirmwareResponse => 3,
            StreamType::StOpaque(n) => n,
        }
    }
}

/// A node asks which firmware it should run and says what it runs now.
#[derive(Debug, Clone, Copy, PartialEq, Eq, Structural)]
pub struct FwConfigRequest {
    pub firmware_type: u16,
    pub firmware_version: u16,
    pub blocks: u16,
    pub crc: u16,
    pub bl_version: u16,
}

/// The firmware that a node should run: its size in blocks and its checksum.
#[derive(Debug, Clone, Copy, PartialEq, Eq, Structural)]
pub struct FwConfigResponse {
    pub firmware_type: u16,
    pub firmware_version: u16,
    pub blocks: u16,
    pub crc: u16,
}

/// A node asks for one block; `blocks` is the number of the block.
#[derive(Debug, Clone, Copy, PartialEq, Eq, Structural)]
pub struct FwRequest {
    pub firmware_type: u16,
    pub firmware_version: u16,
    pub blocks: u16,
}

/// One block of a firmware; `blocks` is the number of the block, `data` its 16 bytes.
#[derive(Debug, Clone, PartialEq, Eq)]
pub struct FwResponse {
    pub firmware_type: u16,
    pub firmware_version: u16,
    pub blocks: u16,
    pub data: Vec<u8>,
}

/// The decoded payload of a stream frame.
#[derive(Debug, Clone, PartialEq, Eq)]
pub enum StreamPayload {
    FwConfigRequest(FwConfigRequest),
    FwConfigResponse(FwConfigResponse),
    FwRequest(FwRequest),
    FwResponse(FwResponse),
    Opaque(Vec<u8>),
}

/// The little-endian word at bytes `2 * k` and `2 * k + 1`.
pub open spec fn word_at(b: Seq<u8>, k: int) -> u16 {
    (b[2 * k] + 256 * b[2 * k + 1]) as u16
}

/// The two bytes of a word, low byte first.
pub open spec fn word_bytes(w: u16) -> Seq<u8> {
    seq![(w % 256) as u8, (w / 256) as u8]
}

/// How many bytes the payload of a stream type holds; `None` where any length goes.
pub open spec fn layout_len(sub_type: u8) -> Option<nat> {
    if sub_type == 0 {
        Some(10)
    } else if sub_type == 1 {
        Some(8)
    } else if sub_type == 2 {
        Some(6)
    } else if sub_type == 3 {
        Some(22)
    } else {
        None
    }
}

/// Why the bytes `b` are refused as the payload of a stream type, if they are.
pub open spec fn layout_error(sub_type: u8, b: Seq<u8>) -> Option<ErrorKind> {
    match layout_len(sub_type) {
        None => None,
        Some(n) => if b.len() < n {
            Some(ErrorKind::ShortPayload)
        } else if b.len() > n {
            Some(ErrorKind::BadPayload)
        } else {
            None
        },
    }
}

/// Why the hexadecimal text `text` is refused as the payload of a stream type, if it is.
pub open spec fn stream_error(sub_type: u8, text: Seq<u8>) -> Option<ErrorKind> {
    if !is_hex_text(text) {
        Some(ErrorKind::BadHex)
    } else {
        layout_error(sub_type, hex_decode(text).unwrap())
    }
}

impl StreamPayload {
    /// The number of the stream type that the payload belongs to; `None` for an opaque one.
    pub open spec fn kind(&self) -> Option<u8> {
        match self {
            StreamPayload::FwConfigRequest(_) => Some(0u8),
            StreamPayload::FwConfigResponse(_) => Some(1u8),
            StreamPayload::FwRequest(_) => Some(2u8),
            StreamPayload::FwResponse(_) => Some(3u8),
            StreamPayload::Opaque(_) => None,
        }
    }

    /// A block holds 16 bytes.
    pub open spec fn wf(&self) -> bool {
        match self {
            StreamPayload::FwResponse(r) => r.data@.len() == 16,
            _ => true,
        }
    }

    /// `self` is what the bytes `b` say under the stream type `sub_type`.
    pub open spec fn decodes(&self, sub_type: u8, b: Seq<u8>) -> bool {
        match self {
            StreamPayload::FwConfigRequest(r) => {
                &&& sub_type == 0
                &&& r.firmware_type == word_at(b, 0)
                &&& r.firmware_version == word_at(b, 1)
                &&& r.blocks == word_at(b, 2)
                &&& r.crc == word_at(b, 3)
                &&& r.bl_version == word_at(b, 4)
            },
            StreamPayload::FwConfigResponse(r) => {
                &&& sub_type == 1
                &&& r.firmware_type == word_at(b, 0)
                &&& r.firmware_version == word_at(b, 1)
                &&& r.blocks == word_at(b, 2)
                &&& r.crc == word_at(b, 3)
            },
            StreamPayload::FwRequest(r) => {
                &&& sub_type == 2
                &&& r.firmware_type == word_at(b, 0)
                &&& r.firmware_version == word_at(b, 1)
                &&& r.blocks == word_at(b, 2)
            },
            StreamPayload::FwResponse(r) => {
                &&& sub_type == 3
                &&& r.firmware_type == word_at(b, 0)
                &&& r.firmware_version == word_at(b, 1)
                &&& r.blocks == word_at(b, 2)
                &&& r.data@ == b.subrange(6, 22)
            },
            StreamPayload::Opaque(v) => sub_type >= 4 && v@ == b,
        }
    }

    /// The bytes that the payload is written as, before they are turned into hexadecimal text.
    pub open spec fn bytes(&self) -> Seq<u8> {
        match self {
            StreamPayload::FwConfigRequest(r) => word_bytes(r.firmware_type) + word_bytes(
                r.firmware_version,
            ) + word_bytes(r.blocks) + word_bytes(r.crc) + word_bytes(r.bl_version),
            StreamPayload::FwConfigResponse(r) => word_bytes(r.firmware_type) + word_bytes(
                r.firmware_version,
            ) + word_bytes(r.blocks) + word_bytes(r.crc),
            StreamPayload::FwRequest(r) => word_bytes(r.firmware_type) + word_bytes(
                r.firmware_version,
            ) + word_bytes(r.blocks),
            StreamPayload::FwResponse(r) => word_bytes(r.firmware_type) + word_bytes(
                r.firmware_version,
            ) + word_bytes(r.blocks) + r.data@,
            StreamPayload::Opaque(v) => v@,
        }
    }

    /// Decoding bytes and writing the payload out gives the bytes.
    pub proof fn lemma_decode_bytes(&self, sub_type: u8, b: Seq<u8>)
        requires
            layout_error(sub_type, b) is None,
            self.decodes(sub_type, b),
        ensures
            self.bytes() == b,
    {
        assert(self.bytes() =~= b);
    }

    /// Writing a payload out and decoding the bytes gives the payload.
    pub proof fn lemma_bytes_decode(&self, sub_type: u8)
        requires
            self.wf(),
            match self.kind() {
                Some(k) => sub_type == k,
                None => sub_type >= 4,
            },
        ensures
            layout_error(sub_type, self.bytes()) is None,
            self.decodes(sub_type, self.bytes()),
    {
        match self {
            StreamPayload::FwResponse(r) => {
                assert(self.bytes().subrange(6, 22) =~= r.data@);
            },
            _ => {},
        }
    }

    /// Decodes the bytes of a payload under the stream type `sub_type`.
    pub fn decode(sub_type: u8, b: &[u8]) -> (r: Result<StreamPayload, ErrorKind>)
        ensures
            match r {
                Ok(p) => layout_error(sub_type, b@) is None && p.decodes(sub_type, b@) && p.wf(),
                Err(e) => layout_error(sub_type, b@) == Some(e),
            },
    {
        if sub_type >= 4 {
            return Ok(StreamPayload::Opaque(vstd::slice::slice_to_vec(b)));
        }
        let need: usize = if sub_type == 0 {
            10
        } else if sub_type == 1 {
            8
        } else if sub_type == 2 {
            6
        } else {
            22
        };
        if b.len() < need {
            return Err(ErrorKind::ShortPayload);
        }
        if b.len() > need {
            return Err(ErrorKind::BadPayload);
        }
        let firmware_type = read_word(b, 0);
        let firmware_version = read_word(b, 1);
        let blocks = read_word(b, 2);
        if sub_type == 0 {
            let crc = read_word(b, 3);
            let bl_version = read_word(b, 4);
            Ok(
                StreamPayload::FwConfigRequest(
                    FwConfigRequest { firmware_type, firmware_version, blocks, crc, bl_version },
                ),
            )
        } else if sub_type == 1 {
            let crc = read_word(b, 3);
            Ok(
                StreamPayload::FwConfigResponse(
                    FwConfigResponse { firmware_type, firmware_version, blocks, crc },
                ),
            )
        } else if sub_type == 2 {
            Ok(StreamPayload::FwRequest(FwRequest { firmware_type, firmware_version, blocks }))
        } else {
            let data = vstd::slice::slice_to_vec(vstd::slice::slice_subrange(b, 6, 22));
            Ok(
                StreamPayload::FwResponse(
                    FwResponse { firmware_type, firmware_version, blocks, data },
                ),
            )
        }
    }

    /// Writes the payload out as bytes.
    pub fn encode(&self) -> (r: Vec<u8>)
        ensures
            r@ == self.bytes(),
    {
        let mut out: Vec<u8> = Vec::new();
        match self {
            StreamPayload::FwConfigRequest(r) => {
                push_word(&mut out, r.firmware_type);
                push_word(&mut out, r.firmware_version);
                push_word(&mut out, r.blocks);
                push_word(&mut out, r.crc);
                push_word(&mut out, r.bl_version);
            },
            StreamPayload::FwConfigResponse(r) => {
                push_word(&mut out, r.firmware_type);
                push_word(&mut out, r.firmware_version);
                push_word(&mut out, r.blocks);
                push_word(&mut out, r.crc);
            },
            StreamPayload::FwRequest(r) => {
                push_word(&mut out, r.firmware_type);
                push_word(&mut out, r.firmware_version);
                push_word(&mut out, r.blocks);
            },
            StreamPayload::FwResponse(r) => {
                push_word(&mut out, r.firmware_type);
                push_word(&mut out, r.firmware_version);
                push_word(&mut out, r.blocks);
                out.extend_from_slice(r.data.as_slice());
            },
            StreamPayload::Opaque(v) => {
                out.extend_from_slice(v.as_slice());
            },
        }
        assert(out@ =~= self.bytes());
        out
    }
}

/// Reads the little-endian word number `k` of `b`.
pub fn read_word(b: &[u8], k: usize) -> (r: u16)
    requires
        2 * k + 1 < b.len(),
    ensures
        r == word_at(b@, k as int),
{
    let lo: u16 = b[2 * k] as u16;
    let hi: u16 = b[2 * k + 1] as u16;
    lo + 256 * hi
}

/// Appends the two bytes of `w`, low byte first.
pub fn push_word(out: &mut Vec<u8>, w: u16)
    ensures
        final(out)@ == old(out)@ + word_bytes(w),
{
    out.push((w % 256) as u8);
    out.push((w / 256) as u8);
    assert(out@ =~= old(out)@ + word_bytes(w));
}

/// A stream frame with its payload decoded.
#[derive(Debug, Clone)]
pub struct StreamMessage {
    pub node_id: u8,
    pub child_sensor_id: u8,
    pub ack: u8,
    pub sub_type: StreamType,
    pub payload: StreamPayload,
}

impl StreamMessage {
    /// The payload is of the kind that the stream type names, and a block holds 16 bytes.
    pub open spec fn wf(&self) -> bool {
        &&& self.sub_type.wf()
        &&& self.payload.wf()
        &&& match self.payload.kind() {
            Some(k) => self.sub_type.number() == k,
            None => self.sub_type.number() >= 4,
        }
    }

    /// The bytes that the frame is written as: the payload in upper-case hexadecimal text.
    pub open spec fn wire(&self) -> Seq<u8> {
        render_frame(
            self.node_id,
            self.child_sensor_id,
            4,
            self.ack,
            self.sub_type.number(),
            hex_encode(self.payload.bytes()),
        )
    }

    /// `self` is the stream frame with the given numeric fields and hexadecimal payload.
    pub open spec fn is_stream(
        &self,
        node_id: u8,
        child_sensor_id: u8,
        sub_type: u8,
        ack: u8,
        text: Seq<u8>,
    ) -> bool {
        &&& self.node_id == node_id
        &&& self.child_sensor_id == child_sensor_id
        &&& self.ack == ack
        &&& self.sub_type.number() == sub_type
        &&& self.payload.decodes(sub_type, hex_decode(text).unwrap())
        &&& self.wf()
    }

    /// Builds a stream frame from its numeric fields and its hexadecimal payload.
    pub fn build(node_id: u8, child_sensor_id: u8, sub_type: u8, ack: u8, payload: &[u8]) -> (r:
        Result<StreamMessage, ErrorKind>)
        ensures
            match r {
                Ok(msg) => stream_error(sub_type, payload@) is None && msg.is_stream(
                    node_id,
                    child_sensor_id,
                    sub_type,
                    ack,
                    payload@,
                ),
                Err(e) => stream_error(sub_type, payload@) == Some(e),
            },
    {
        let bytes = match decode_hex(payload) {
            Some(b) => b,
            None => {
                return Err(ErrorKind::BadHex);
            },
        };
        match StreamPayload::decode(sub_type, bytes.as_slice()) {
            Ok(p) => Ok(
                StreamMessage {
                    node_id,
                    child_sensor_id,
                    ack,
                    sub_type: StreamType::from_u8(sub_type),
                    payload: p,
                },
            ),
            Err(e) => Err(e),
        }
    }

    /// Writes the frame out.
    pub fn serialize(&self) -> (r: Vec<u8>)
        ensures
            r@ == self.wire(),
    {
        let bytes = self.payload.encode();
        let mut text: Vec<u8> = Vec::new();
        push_hex(&mut text, bytes.as_slice());
        assert(text@ =~= hex_encode(bytes@));
        write_frame(
            self.node_id,
            self.child_sensor_id,
            4,
            self.ack,
            self.sub_type.to_u8(),
            text.as_slice(),
        )
    }

    /// Writes the frame out as one line of text, a character for each byte.
    pub fn to_string(&self) -> (r: String)
        ensures
            r@ == ascii_chars(self.wire()),
            r@ == lossy_text(self.wire()),
    {
        let bytes = self.serialize();
        proof {
            let text = hex_encode(self.payload.bytes());
            lemma_digits_ascii(0, self.payload.bytes());
            lemma_render_frame_ascii(
                self.node_id,
                self.child_sensor_id,
                4,
                self.ack,
                self.sub_type.number(),
                text,
            );
            lemma_ascii_is_utf8(self.wire());
        }
        string_of_bytes(bytes.as_slice())
    }

    /// `self` is the answer to the request `req` out of the firmware `f`: to a
    /// configuration request the firmware's size and checksum, to a block
    /// request the block; anything else stays as it is.
    pub open spec fn answers(&self, req: StreamMessage, f: Firmware) -> bool {
        match req.payload {
            StreamPayload::FwConfigRequest(_) => {
                &&& self.node_id == req.node_id
                &&& self.child_sensor_id == 255
                &&& self.ack == 0
                &&& self.sub_type == StreamType::StFirmwareConfigResponse
                &&& self.payload == StreamPayload::FwConfigResponse(
                    FwConfigResponse {
                        firmware_type: f.firmware_type,
                        firmware_version: f.firmware_version,
                        blocks: f.blocks,
                        crc: f.crc,
                    },
                )
            },
            StreamPayload::FwRequest(q) => {
                &&& self.node_id == req.node_id
                &&& self.child_sensor_id == 255
                &&& self.ack == 0
                &&& self.sub_type == StreamType::StFirmwareResponse
                &&& match self.payload {
                    StreamPayload::FwResponse(r) => {
                        &&& r.firmware_type == f.firmware_type
                        &&& r.firmware_version == f.firmware_version
                        &&& r.blocks == q.blocks
                        &&& r.data@ == block_of(f.data@, q.blocks as int)
                    },
                    _ => false,
                }
            },
            _ => *self == req,
        }
    }

    /// Turns a request into its answer out of `firmware`, in place.
    pub fn to_response(&mut self, firmware: &Firmware)
        ensures
            final(self).answers(*old(self), *firmware),
            old(self).wf() ==> final(self).wf(),
    {
        match &self.payload {
            StreamPayload::FwConfigRequest(_) => {
                self.child_sensor_id = 255;
                self.ack = 0;
                self.sub_type = StreamType::StFirmwareConfigResponse;
                self.payload = StreamPayload::FwConfigResponse(
                    FwConfigResponse {
                        firmware_type: firmware.firmware_type,
                        firmware_version: firmware.firmware_version,
                        blocks: firmware.blocks,
                        crc: firmware.crc,
                    },
                );
            },
            StreamPayload::FwRequest(q) => {
                let block = q.blocks;
                let data = firmware.block(block);
                self.child_sensor_id = 255;
                self.ack = 0;
                self.sub_type = StreamType::StFirmwareResponse;
                self.payload = StreamPayload::FwResponse(
                    FwResponse {
                        firmware_type: firmware.firmware_type,
                        firmware_version: firmware.firmware_version,
                        blocks: block,
                        data,
                    },
                );
            },
            _ => {},
        }
    }
}

} // verus!
