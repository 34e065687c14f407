//! The allocator of node ids: a node that asks for an id gets the one after
//! the highest id in use.

use vstd::prelude::*;
use crate::error::ErrorKind;
use crate::frame::{CommandType, LineMessage};
use crate::interceptor::{I_ID_RESPONSE, NODE_SENSOR_ID};
use crate::text::{dec_digits, push_dec};

verus! {

/// The highest id that a node can have; 255 is kept for broadcast.
pub const MAX_NODE_ID: u8 = 254u8;

/// The id after `max`, as long as it is not above the highest id a node can have.
pub open spec fn next_node_id(max: u8) -> Option<u8> {
    if max < MAX_NODE_ID {
        Some((max + 1) as u8)
    } else {
        None
    }
}

/// The id to hand out when `max` is the highest id in use.
pub fn allocate_node_id(max: u8) -> (r: Result<u8, ErrorKind>)
    ensures
        match r {
            Ok(id) => next_node_id(max) == Some(id),
            Err(e) => next_node_id(max) is None && e == ErrorKind::AllocOverflow,
        },
{
    if max < MAX_NODE_ID {
        Ok(max + 1)
    } else {
        Err(ErrorKind::AllocOverflow)
    }
}

/// `reply` tells the node that sent `request` that its id is `id`.
pub open spec fn is_id_response(reply: LineMessage, request: LineMessage, id: u8) -> bool {
    &&& reply.node_id == request.node_id
    &&& reply.child_sensor_id == NODE_SENSOR_ID
    &&& reply.command == CommandType::INTERNAL
    &&& reply.ack == 0
    &&& reply.sub_type == I_ID_RESPONSE
    &&& reply.payload@ == dec_digits(id)
}

/// Answers a request for a node id: the id after `max_node_id` and the
/// reply that carries it in decimal, or an error, and no reply, where no id
/// is left.
pub fn handle_node_id_request(request: &LineMessage, max_node_id: u8) -> (r: Result<
    (u8, LineMessage),
    ErrorKind,
>)
    ensures
        match r {
            Ok((id, reply)) => next_node_id(max_node_id) == Some(id) && is_id_response(
                reply,
                *request,
                id,
            ),
            Err(e) => next_node_id(max_node_id) is None && e == ErrorKind::AllocOverflow,
        },
{
    let id = match allocate_node_id(max_node_id) {
        Ok(id) => id,
        Err(e) => {
            return Err(e);
        },
    };
    let mut payload: Vec<u8> = Vec::new();
    push_dec(&mut payload, id);
    assert(payload@ =~= dec_digits(id));
    Ok(
        (
            id,
            LineMessage {
                node_id: request.node_id,
                child_sensor_id: NODE_SENSOR_ID,
                command: CommandType::INTERNAL,
                ack: 0,
                sub_type: I_ID_RESPONSE,
                payload,
            },
        ),
    )
}

} // verus!
