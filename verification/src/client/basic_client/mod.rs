//! How a client answers requests.
//!
//! Every request goes through a number of stages. Each stage names what has to be asked for next;
//! its method takes the answer and gives the next stage, or the response.

pub mod client;
pub mod describe;
pub mod laws;
pub mod lookup;
pub mod lookup_laws;
pub mod options;
pub mod parameter;
pub mod playback;
pub mod request_laws;
pub mod response_laws;
pub mod setup;
pub mod teardown;
