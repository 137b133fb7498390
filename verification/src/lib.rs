//! Verified core of a WASI sensor host and guest: the frame pool that carries
//! sensor frames from a device to an application, the host-side resource logic
//! around it, the dummy camera device, and the guest's image preparation
//! (cutting YUY2 images into per-pixel samples included).

pub mod types;
pub mod yuv;
pub mod clock;
pub mod frame_queue;
pub mod pool;
pub mod names;
pub mod host;
pub mod dummy_device;
pub mod guest;
pub mod registry;
