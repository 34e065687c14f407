//! The firmware handler: it answers configuration and block requests out of
//! the firmware store and passes every other stream frame on.

use vstd::prelude::*;
use crate::error::ErrorKind;
use crate::firmware::{crc16, padded, Firmware, FirmwareStore, PAD};
use crate::stream_message::{StreamMessage, StreamPayload};

verus! {

/// What the firmware handler does with one stream frame.
#[derive(Debug, Clone)]
pub enum OtaAction {
    /// Send this answer back to the gateway.
    Reply(StreamMessage),
    /// Pass the frame on to the controller as it is.
    Forward(StreamMessage),
    /// Drop the request; the node will ask again.
    Dropped(ErrorKind),
}

/// The type and version of the firmware that a request names; `None` for a
/// frame that is no request.
pub open spec fn requested(message: StreamMessage) -> Option<(u16, u16)> {
    match message.payload {
        StreamPayload::FwConfigRequest(q) => Some((q.firmware_type, q.firmware_version)),
        StreamPayload::FwRequest(q) => Some((q.firmware_type, q.firmware_version)),
        _ => None,
    }
}

/// `action` is what the handler owes for `message` with the firmwares of `store`.
pub open spec fn is_ota_action(action: OtaAction, message: StreamMessage, store: FirmwareStore) -> bool {
    match requested(message) {
        None => action == OtaAction::Forward(message),
        Some((t, v)) => if store.holds(t, v) {
            match action {
                OtaAction::Reply(reply) => reply.answers(
                    message,
                    store.firmwares@[store.position(t, v, store.firmwares@.len() as int)],
                ),
                _ => false,
            }
        } else {
            action == OtaAction::Dropped(ErrorKind::FirmwareNotFound)
        },
    }
}

/// Handles one stream frame. A request is answered out of the first firmware
/// of its type and version, and dropped where the store holds none; any
/// other frame is passed on unchanged.
pub fn process_ota(message: StreamMessage, store: &FirmwareStore) -> (r: OtaAction)
    ensures
        is_ota_action(r, message, *store),
        message.wf() ==> match r {
            OtaAction::Reply(reply) => reply.wf(),
            _ => true,
        },
{
    let key = match &message.payload {
        StreamPayload::FwConfigRequest(q) => Some((q.firmware_type, q.firmware_version)),
        StreamPayload::FwRequest(q) => Some((q.firmware_type, q.firmware_version)),
        _ => None,
    };
    match key {
        None => OtaAction::Forward(message),
        Some((t, v)) => match store.get(t, v) {
            Some(firmware) => {
                let mut reply = message;
                reply.to_response(firmware);
                OtaAction::Reply(reply)
            },
            None => OtaAction::Dropped(ErrorKind::FirmwareNotFound),
        },
    }
}

/// The checksum in the answer to a configuration request is the checksum of
/// the padded image of the firmware, and the block count is its length in blocks.
pub proof fn lemma_config_reports_crc(
    reply: StreamMessage,
    request: StreamMessage,
    firmware: Firmware,
    image: Seq<u8>,
)
    requires
        firmware.wf(),
        firmware.data@ == padded(image),
        request.payload is FwConfigRequest,
        reply.answers(request, firmware),
    ensures
        reply.payload is FwConfigResponse,
        reply.payload->FwConfigResponse_0.crc == crc16(padded(image)),
        reply.payload->FwConfigResponse_0.blocks * 16 == padded(image).len(),
{
}

/// The answer to a request for a block that the firmware has holds the 16
/// bytes of that block; for a block past the end it holds 16 pad bytes.
pub proof fn lemma_block_range(reply: StreamMessage, request: StreamMessage, firmware: Firmware)
    requires
        firmware.wf(),
        request.payload is FwRequest,
        reply.answers(request, firmware),
    ensures
        reply.payload is FwResponse,
        ({
            let block = request.payload->FwRequest_0.blocks as int;
            let data = reply.payload->FwResponse_0.data@;
            if block < firmware.blocks {
                data == firmware.data@.subrange(16 * block, 16 * block + 16)
            } else {
                data == Seq::new(16, |i: int| PAD)
            }
        }),
{
}

} // verus!
