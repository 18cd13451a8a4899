//! Real-time audio routing core: a drop-oldest ring buffer, a pool of
//! reusable sample buffers, the routing table and the engine's start/stop
//! state, the resampler's read cursor, and the naming rules for audio
//! devices. Sample arithmetic itself is left to the caller: the containers
//! are generic over the sample type.

pub mod device;
pub mod engine;
pub mod error;
pub mod resample;
pub mod ring_buffer;
pub mod routing;
pub mod sample_pool;

pub use device::{find_device_by_id, generate_device_id, is_vb_cable, text_contains, DeviceInfo};
pub use engine::{AudioEngine, StartPlan};
pub use error::AudioError;
pub use resample::SimpleResampler;
pub use ring_buffer::RingBuffer;
pub use routing::{contains_id, Route, RoutingTable};
pub use sample_pool::SamplePool;
