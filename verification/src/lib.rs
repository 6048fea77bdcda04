//! Verified core of netvr: the message model, framing and discovery of the
//! network protocol, the server's bookkeeping of clients, shared objects and
//! calibration, the client's merging of remote data, the OpenXR layer's
//! bookkeeping of handles and actions, and the device-log parser.

pub mod app;
pub mod discovery;
pub mod model;
pub mod maps;
pub mod merge;
pub mod server;
pub mod app_server;
pub mod local_objects;
pub mod devices;
pub mod framing;
pub mod xr_result;
pub mod loader;
pub mod calibration;
pub mod client;
pub mod dashboard;
pub mod log_parse;
pub mod xr_wrap;
pub mod device_data;
pub mod actions;
pub mod handles;
