//! The interceptor: every message that comes in from the gateway goes to
//! exactly one of four queues.

use vstd::prelude::*;
use crate::frame::{CommandType, LineMessage};
use crate::error::ErrorKind;
use crate::message::{message_error, CommandMessage};
use crate::stream_message::StreamMessage;

verus! {

/// The child sensor id that stands for the node itself.
pub const NODE_SENSOR_ID: u8 = 255u8;

/// The internal sub-type by which a node asks for an id.
pub const I_ID_REQUEST: u8 = 3u8;

/// The internal sub-type that carries the id handed out.
pub const I_ID_RESPONSE: u8 = 4u8;

/// Where a message from the gateway goes.
#[derive(Debug, Clone, Copy, PartialEq, Eq, Structural)]
pub enum Route {
    /// To the hook that records the sensors that nodes present.
    Presentation,
    /// To the allocator of node ids.
    NodeRequest,
    /// To the firmware handler.
    Ota,
    /// On to the controller.
    Controller,
}

/// The route of a frame, by its command, child sensor id and sub-type.
pub open spec fn route_of(command: CommandType, child_sensor_id: u8, sub_type: u8) -> Route {
    match command {
        CommandType::PRESENTATION => Route::Presentation,
        CommandType::STREAM => Route::Ota,
        CommandType::INTERNAL => if child_sensor_id == NODE_SENSOR_ID && sub_type == I_ID_REQUEST {
            Route::NodeRequest
        } else {
            Route::Controller
        },
        CommandType::SET => Route::Controller,
        CommandType::REQ => Route::Controller,
    }
}

/// The route of a frame.
pub fn route(command: CommandType, child_sensor_id: u8, sub_type: u8) -> (r: Route)
    ensures
        r == route_of(command, child_sensor_id, sub_type),
{
    match command {
        CommandType::PRESENTATION => Route::Presentation,
        CommandType::STREAM => Route::Ota,
        CommandType::INTERNAL => if child_sensor_id == NODE_SENSOR_ID && sub_type == I_ID_REQUEST {
            Route::NodeRequest
        } else {
            Route::Controller
        },
        CommandType::SET => Route::Controller,
        CommandType::REQ => Route::Controller,
    }
}

/// `line` holds what the text `m` says, and `route` is its route.
pub open spec fn is_routed_line(line: LineMessage, route: Route, m: Seq<u8>) -> bool {
    &&& CommandMessage::Other(line).is_message(m)
    &&& route == route_of(line.command, line.child_sensor_id, line.sub_type)
}

/// The four queues behind the interceptor, each in the order of arrival.
pub struct Queues {
    pub presentation: Vec<LineMessage>,
    pub node_requests: Vec<LineMessage>,
    pub ota: Vec<StreamMessage>,
    pub controller: Vec<LineMessage>,
}

impl Queues {
    /// How many messages wait in the four queues together.
    pub open spec fn total(&self) -> nat {
        self.presentation@.len() + self.node_requests@.len() + self.ota@.len()
            + self.controller@.len()
    }

    /// `self` is `before` with `line` put at the end of the queue of `route`, and nothing else.
    pub open spec fn took_line(&self, before: Queues, route: Route, line: LineMessage) -> bool {
        &&& self.ota@ == before.ota@
        &&& self.presentation@ == if route == Route::Presentation {
            before.presentation@.push(line)
        } else {
            before.presentation@
        }
        &&& self.node_requests@ == if route == Route::NodeRequest {
            before.node_requests@.push(line)
        } else {
            before.node_requests@
        }
        &&& self.controller@ == if route == Route::Controller {
            before.controller@.push(line)
        } else {
            before.controller@
        }
    }

    /// `self` is `before` with `stream` put at the end of the firmware queue, and nothing else.
    pub open spec fn took_stream(&self, before: Queues, stream: StreamMessage) -> bool {
        &&& self.ota@ == before.ota@.push(stream)
        &&& self.presentation@ == before.presentation@
        &&& self.node_requests@ == before.node_requests@
        &&& self.controller@ == before.controller@
    }

    /// `self` is `before` with the message that the text `m` says put at the
    /// end of the queue of `route`, which is the route of that message, and
    /// nothing else.
    pub open spec fn took_frame(&self, before: Queues, route: Route, m: Seq<u8>) -> bool {
        match route {
            Route::Ota => {
                &&& self.ota@.len() == before.ota@.len() + 1
                &&& self.took_stream(before, self.ota@.last())
                &&& CommandMessage::Stream(self.ota@.last()).is_message(m)
            },
            Route::Presentation => {
                &&& self.presentation@.len() == before.presentation@.len() + 1
                &&& self.took_line(before, route, self.presentation@.last())
                &&& is_routed_line(self.presentation@.last(), route, m)
            },
            Route::NodeRequest => {
                &&& self.node_requests@.len() == before.node_requests@.len() + 1
                &&& self.took_line(before, route, self.node_requests@.last())
                &&& is_routed_line(self.node_requests@.last(), route, m)
            },
            Route::Controller => {
                &&& self.controller@.len() == before.controller@.len() + 1
                &&& self.took_line(before, route, self.controller@.last())
                &&& is_routed_line(self.controller@.last(), route, m)
            },
        }
    }

    /// Four empty queues.
    pub fn new() -> (r: Queues)
        ensures
            r.total() == 0,
    {
        Queues {
            presentation: Vec::new(),
            node_requests: Vec::new(),
            ota: Vec::new(),
            controller: Vec::new(),
        }
    }

    /// Puts one message from the gateway into the queue that its route names.
    /// A stream frame goes to the firmware queue; any other frame goes by
    /// its command, child sensor id and sub-type. Exactly one queue grows, by
    /// this message.
    pub fn intercept(&mut self, message: CommandMessage) -> (r: Route)
        requires
            message.wf(),
        ensures
            final(self).total() == old(self).total() + 1,
            match message {
                CommandMessage::Stream(stream) => r == Route::Ota && final(self).took_stream(
                    *old(self),
                    stream,
                ),
                CommandMessage::Other(line) => r == route_of(
                    line.command,
                    line.child_sensor_id,
                    line.sub_type,
                ) && r != Route::Ota && final(self).took_line(*old(self), r, line),
            },
    {
        match message {
            CommandMessage::Stream(stream) => {
                self.ota.push(stream);
                Route::Ota
            },
            CommandMessage::Other(line) => {
                let r = route(line.command, line.child_sensor_id, line.sub_type);
                match r {
                    Route::Presentation => {
                        self.presentation.push(line);
                        Route::Presentation
                    },
                    Route::NodeRequest => {
                        self.node_requests.push(line);
                        Route::NodeRequest
                    },
                    _ => {
                        self.controller.push(line);
                        Route::Controller
                    },
                }
            },
        }
    }

    /// Reads one frame that came in from the gateway and puts the message
    /// into the queue of its route. A frame that is refused goes nowhere:
    /// the queues stay as they are.
    pub fn intercept_frame(&mut self, frame: &[u8]) -> (r: Result<Route, ErrorKind>)
        ensures
            match r {
                Ok(route) => {
                    &&& message_error(frame@) is None
                    &&& final(self).total() == old(self).total() + 1
                    &&& final(self).took_frame(*old(self), route, frame@)
                },
                Err(e) => message_error(frame@) == Some(e) && *final(self) == *old(self),
            },
    {
        match CommandMessage::parse(frame) {
            Ok(message) => Ok(self.intercept(message)),
            Err(e) => Err(e),
        }
    }
}

/// Every message has one route, and the queues of the other routes do not
/// see it: whatever queue took the message of a frame, the four queues
/// together hold one message more, and the three others hold what they held.
pub proof fn lemma_one_queue(after: Queues, before: Queues, route: Route, m: Seq<u8>)
    requires
        after.took_frame(before, route, m),
    ensures
        after.total() == before.total() + 1,
        route != Route::Presentation ==> after.presentation@ == before.presentation@,
        route != Route::NodeRequest ==> after.node_requests@ == before.node_requests@,
        route != Route::Ota ==> after.ota@ == before.ota@,
        route != Route::Controller ==> after.controller@ == before.controller@,
{
}

} // verus!
