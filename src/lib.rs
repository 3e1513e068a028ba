//! Audio capture core: device selection, configuration negotiation,
//! sample normalisation, chunking and WAV encoding.
pub mod samples;
pub mod container;
pub mod dispatch;
pub mod negotiate;
pub mod capture;
pub mod catalog;
pub mod resolver;
pub mod streams;

pub use capture::CaptureState;
pub use catalog::{get_audio_devices, DeviceInfo};
pub use dispatch::{check_and_send_buffer, AudioPayload, ChunkPolicy, Role};
pub use negotiate::{resolve_input_config, ConfigRange, SampleEncoding, StreamSpec};
pub use resolver::{resolve_device, DeviceChoice, DeviceEntry};
pub use streams::StreamSet;
