//! OAAT — Open Advanced Audio Transport: wire formats, control framing,
//! negotiation state and the endpoint/controller decision logic.

pub mod format;
pub mod error;
pub mod session;
pub mod bytes_be;
pub mod wire;
pub mod codec;
pub mod text;
pub mod capability;
pub mod message;
pub mod endpoint_session;
pub mod sync;
pub mod output;
pub mod devices;
pub mod mixer;
pub mod protocol;
pub mod keyed;
pub mod fec;
pub mod zone;
pub mod c_api;
pub mod config;
pub mod wav;
pub mod tls;
pub mod web_ui;
pub mod manager;
pub mod negotiation;
pub mod endpoint_transport;
pub mod conformance;

use vstd::prelude::*;

verus! {

pub const PROTOCOL_VERSION: u32 = 1;

pub const DEFAULT_CONTROL_PORT: u16 = 9740;

pub const DEFAULT_AUDIO_PORT: u16 = 9741;

pub const DEFAULT_CLOCK_PORT: u16 = 9742;

/// DNS-SD service type of endpoints.
pub const SERVICE_TYPE: &'static str = "_oaat._tcp";

/// DNS-SD service type of controllers.
pub const CTRL_SERVICE_TYPE: &'static str = "_oaat-ctrl._tcp";

/// Largest audio payload a receiver accepts.
pub const MAX_AUDIO_PAYLOAD: usize = 8192;

pub const DEFAULT_SINGLE_PLAY_DELAY_MS: u64 = 200;

pub const DEFAULT_MULTIROOM_PLAY_DELAY_MS: u64 = 500;

} // verus!

