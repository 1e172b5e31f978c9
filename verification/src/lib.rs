//! A synchronous bridge over which a guest program fetches through its host.
//!
//! The guest writes a serialized request to a device file and reads the
//! serialized response back from it, with plain file operations. The request and
//! the response travel through a [`Bridge`] that guest and host threads share;
//! the guest waits for the response word of the bridge and gives up, with an
//! error object in place of the response, when no host answers.
//!
//! - `bridge`: the shared slots and sequence words, and the host's side;
//! - `wait`: the guest's wait for its response;
//! - `envelope`: the error object;
//! - `device_file`, `device_fs`, `path`: the device file and its filesystem;
//! - `report`: a textual probe of the bridge;
//! - `wat`, `sdk`: text-format modules, and where the SDK loads its code from;
//! - `laws`: what holds of whole exchanges.
pub mod bridge;
pub mod device_file;
pub mod device_fs;
pub mod envelope;
pub mod laws;
pub mod path;
pub mod report;
pub mod sdk;
pub mod wait;
pub mod wat;

pub use crate::bridge::{
    fetch_bridge_pending_request, fetch_bridge_submit_response, reset_fetch_bridge, Bridge,
    FetchBridge,
};
pub use crate::device_fs::FetchDevice;
pub use crate::report::fetch_bridge_debug_state;
pub use crate::sdk::{set_sdk_url, set_worker_url};
pub use crate::wat::wat2wasm;
