//! Core logic of an MQTT bridge between a local and a remote broker, the
//! sidecar bookkeeping of the broker daemon and the module authorization
//! policy of the edge runtime, each stated and proved with Verus.

pub mod authorization;
pub mod bridge;
pub mod packet_ids;
pub mod proto;
pub mod queue;
pub mod rules;
pub mod sidecar;
