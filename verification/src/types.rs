//! Plain data model of the `wasi:buffer-pool` and `wasi:sensor` interfaces.

use vstd::prelude::*;

verus! {

/// Pixel layout of an image payload.
#[derive(PartialEq, Eq, Structural, Clone, Copy, Debug)]
pub enum PixelFormat {
    /// grayscale, 8 bits per pixel
    Gray,
    /// r, g, b; 24 bits per pixel
    Rgb24,
    /// b, g, r; 24 bits per pixel
    Bgr24,
    /// a, r, g, b; 32 bits per pixel
    Argb32,
    /// a, b, g, r; 32 bits per pixel
    Abgr32,
    /// YUV422 (Y1, Cb, Y2, Cr); 16 bits per pixel
    Yuy2,
    /// Motion JPEG
    Mjpeg,
}

/// Geometry of an image.
#[derive(PartialEq, Eq, Structural, Clone, Copy, Debug)]
pub struct Dimension {
    pub width: u32,
    pub height: u32,
    /// Bytes per row; 0 for compressed formats.
    pub stride_bytes: u32,
    pub pixel_format: PixelFormat,
}

/// An image frame: its geometry and its raw bytes.
#[derive(Clone, Debug)]
pub struct Image {
    pub dimension: Dimension,
    pub payload: Vec<u8>,
}

/// The kinds of data a frame can carry.
#[derive(Clone, Debug)]
pub enum DataType {
    Image(Image),
}

/// One piece of frame data.
#[derive(Clone, Debug)]
pub enum FrameData {
    /// Data passed by value.
    ByValue(DataType),
    /// A reference to host memory, by resource handle.
    HostMemory(u32),
}

/// A frame as handed to the application.
#[derive(Clone, Debug)]
pub struct FrameInfo {
    /// Sequence number within the pool; it increases monotonically.
    pub sequence_number: u64,
    /// Nanoseconds since a fixed point in the past.
    pub timestamp: u64,
    /// One or more pieces of data of this frame.
    pub data: Vec<FrameData>,
}

/// What a pool does with frames that find no free buffer.
#[derive(PartialEq, Eq, Structural, Clone, Copy, Debug)]
pub enum BufferingMode {
    BufferingOff,
    /// Discard the latest frame: behave like a queue.
    BufferingDiscard,
    /// Overwrite the oldest frame: behave like a ring.
    BufferingOverwrite,
    BufferingUnlimited,
}

/// Errors of the buffer-pool interface.
#[derive(PartialEq, Eq, Structural, Clone, Copy, Debug)]
pub enum BufferError {
    NotFound,
    InvalidArgument,
    ResourceExhausted,
    PermissionDenied,
    Busy,
    Timeout,
    Cancelled,
    Aborted,
    AlreadyExists,
    InvalidOperation,
    OutOfRange,
    DataLoss,
    HardwareError,
    NotSupported,
    Unknown,
}

/// Errors of the sensor-device interface.
#[derive(PartialEq, Eq, Structural, Clone, Copy, Debug)]
pub enum DeviceError {
    NotFound,
    InvalidArgument,
    ResourceExhausted,
    PermissionDenied,
    Busy,
    Timeout,
    Cancelled,
    Aborted,
    AlreadyExists,
    InvalidOperation,
    OutOfRange,
    DataLoss,
    HardwareError,
    NotSupported,
    Unknown,
}

/// Counters kept by a pool.
#[derive(PartialEq, Eq, Structural, Clone, Copy, Debug)]
pub struct PoolStatistics {
    pub enqueued: u64,
    pub dropped: u64,
    pub dequeued: u64,
}

/// A rational number as carried by device properties.
#[derive(PartialEq, Eq, Structural, Clone, Copy, Debug)]
pub struct Fraction {
    pub numerator: u32,
    pub denominator: u32,
}

/// Device properties.
#[derive(PartialEq, Eq, Structural, Clone, Copy, Debug)]
pub enum PropertyKey {
    /// Samples per second (a fraction), e.g. the frame rate of a camera.
    SamplingRate,
    Dimension,
}

/// Values of device properties.
#[derive(PartialEq, Eq, Structural, Clone, Copy, Debug)]
pub enum PropertyValue {
    Fraction(Fraction),
    Dimension(Dimension),
}

} // verus!
