//! The presentation hook: what to record when a node presents a sensor. The
//! metadata store is asked outside; what was found comes in as a value and
//! what to do next goes out as a value.

use vstd::prelude::*;
use vstd::utf8::{decode_utf8, valid_utf8};
use crate::frame::LineMessage;
use crate::text::{lossy_text, string_of_bytes};

verus! {

/// A sensor as the metadata store records it.
#[derive(Debug, Clone)]
pub struct Sensor {
    pub node_id: i32,
    pub child_sensor_id: i32,
    pub sensor_type: u8,
    pub description: String,
}

/// What the metadata store said when it was asked for a row.
#[derive(Debug, Clone, Copy, PartialEq, Eq, Structural)]
pub enum Lookup {
    /// The row is there.
    Found,
    /// There is no such row.
    NotFound,
    /// The store failed.
    Failed,
}

/// What to do about the node of a sensor that was presented.
#[derive(Debug, Clone, Copy, PartialEq, Eq, Structural)]
pub enum NodeStep {
    /// The node is known: go on to the sensor.
    UseNode,
    /// The node is new: record it, and go on to the sensor if that worked.
    CreateNode,
    /// The store failed: leave the sensor unrecorded.
    GiveUp,
}

/// What to do about a sensor that was presented.
#[derive(Debug, Clone, Copy, PartialEq, Eq, Structural)]
pub enum SensorStep {
    /// The sensor is new: record it and announce it.
    Insert,
    /// The sensor is known under another type or description: record the new ones.
    Update,
    /// The sensor is recorded as it was presented, or the store failed: do nothing.
    Keep,
}

impl Sensor {
    /// Two records of a sensor say the same.
    pub open spec fn same(&self, other: &Sensor) -> bool {
        &&& self.node_id == other.node_id
        &&& self.child_sensor_id == other.child_sensor_id
        &&& self.sensor_type == other.sensor_type
        &&& self.description@ == other.description@
    }

    /// Whether two records of a sensor say the same.
    pub fn is_same(&self, other: &Sensor) -> (r: bool)
        ensures
            r == self.same(other),
    {
        self.node_id == other.node_id && self.child_sensor_id == other.child_sensor_id
            && self.sensor_type == other.sensor_type && self.description == other.description
    }
}

/// `sensor` is what the presentation `message` says: the node and child
/// sensor that it names, its sub-type as the sensor's type, and its payload
/// as text as the description.
pub open spec fn is_observation(sensor: Sensor, message: LineMessage) -> bool {
    &&& sensor.node_id == message.node_id
    &&& sensor.child_sensor_id == message.child_sensor_id
    &&& sensor.sensor_type == message.sub_type
    &&& sensor.description@ == lossy_text(message.payload@)
    &&& valid_utf8(message.payload@) ==> sensor.description@ == decode_utf8(message.payload@)
}

/// The sensor that a presentation names, and the line to pass on to the controller.
pub fn handle(message: &LineMessage) -> (r: (Sensor, Vec<u8>))
    ensures
        is_observation(r.0, *message),
        r.1@ == message.wire(),
{
    let sensor = Sensor {
        node_id: message.node_id as i32,
        child_sensor_id: message.child_sensor_id as i32,
        sensor_type: message.sub_type,
        description: string_of_bytes(message.payload.as_slice()),
    };
    (sensor, message.serialize())
}

/// The step that follows the lookup of a node.
pub open spec fn node_step(node: Lookup) -> NodeStep {
    match node {
        Lookup::Found => NodeStep::UseNode,
        Lookup::NotFound => NodeStep::CreateNode,
        Lookup::Failed => NodeStep::GiveUp,
    }
}

/// Decides what to do about the node of a presented sensor, from what the
/// store said when asked for the node.
pub fn create_or_update_sensor(node: Lookup) -> (r: NodeStep)
    ensures
        r == node_step(node),
{
    match node {
        Lookup::Found => NodeStep::UseNode,
        Lookup::NotFound => NodeStep::CreateNode,
        Lookup::Failed => NodeStep::GiveUp,
    }
}

/// What the metadata store said when it was asked for a sensor.
#[derive(Debug, Clone)]
pub enum SensorLookup {
    /// The sensor is recorded, as given.
    Found(Sensor),
    /// No such sensor is recorded.
    NotFound,
    /// The store failed.
    Failed,
}

/// The step that follows the lookup of a sensor.
pub open spec fn sensor_step(existing: SensorLookup, observed: Sensor) -> SensorStep {
    match existing {
        SensorLookup::NotFound => SensorStep::Insert,
        SensorLookup::Failed => SensorStep::Keep,
        SensorLookup::Found(e) => if e.same(&observed) {
            SensorStep::Keep
        } else {
            SensorStep::Update
        },
    }
}

/// Decides what to do about a presented sensor, from what the store said
/// when asked for it.
pub fn create_or_update_child_sensor(existing: &SensorLookup, observed: &Sensor) -> (r: SensorStep)
    ensures
        r == sensor_step(*existing, *observed),
{
    match existing {
        SensorLookup::NotFound => SensorStep::Insert,
        SensorLookup::Failed => SensorStep::Keep,
        SensorLookup::Found(e) => if e.is_same(observed) {
            SensorStep::Keep
        } else {
            SensorStep::Update
        },
    }
}

} // verus!
