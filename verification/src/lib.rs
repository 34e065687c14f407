//! Message routing and over-the-air firmware logic of a sensor-network proxy:
//! the framed line codec, the stream sub-payload codec, the firmware image and
//! its checksum, and the decisions of the handlers that sit between a gateway
//! and a controller.

pub mod connection;
pub mod error;
pub mod firmware;
pub mod frame;
pub mod ihex;
pub mod interceptor;
pub mod message;
pub mod node;
pub mod ota;
pub mod presentation;
pub mod proxy;
pub mod stream_message;
pub mod text;
pub mod transport;
