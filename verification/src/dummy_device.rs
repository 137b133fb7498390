//! The dummy camera: a device group with one device, `dummy`, that streams
//! generated RGB frames into a pool at a configurable frame rate.

use vstd::prelude::*;

use crate::types::{
    DataType, DeviceError, Dimension, Fraction, FrameData, Image, PixelFormat, PropertyKey,
    PropertyValue,
};

verus! {

/// Geometry and pace of the generated frames.
#[derive(PartialEq, Eq, Structural, Clone, Copy, Debug)]
pub struct DummyDeviceConfig {
    pub width: u32,
    pub height: u32,
    /// Time between two frames, in nanoseconds.
    pub frame_duration_ns: u64,
}

/// The initial configuration: 640x480 pixels, one frame every 33 ms.
pub open spec fn initial_dummy_config() -> DummyDeviceConfig {
    DummyDeviceConfig { width: 640, height: 480, frame_duration_ns: 33_000_000 }
}

/// The dummy device group.
pub struct DummyDeviceGroup {}

/// The dummy device: the pool it streams into, if any, and its configuration.
/// `P` is however the caller reaches the pool.
pub struct DummyDevice<P> {
    pub pool: Option<P>,
    pub config: DummyDeviceConfig,
}

impl DummyDeviceGroup {
    /// The devices of the group: just `dummy`.
    pub fn list_devices(&self) -> (r: Result<Vec<String>, DeviceError>)
        ensures
            r matches Ok(names) && names@.len() == 1 && names@[0]@ == "dummy"@,
    {
        let name = "dummy";
        let mut names: Vec<String> = Vec::new();
        names.push(name.to_owned());
        Ok(names)
    }

    /// Opens a device of the group: a new dummy device, whatever the name.
    pub fn open_device<P>(&self, name: &str) -> (r: Result<DummyDevice<P>, DeviceError>)
        ensures
            r matches Ok(d) && d.pool is None && d.config == initial_dummy_config(),
    {
        DummyDevice::new()
    }
}

impl<P> DummyDevice<P> {
    /// A device that is not streaming, with the initial configuration.
    pub fn new() -> (r: Result<Self, DeviceError>)
        ensures
            r matches Ok(d) && d.pool is None && d.config == initial_dummy_config(),
    {
        Ok(DummyDevice {
            pool: None,
            config: DummyDeviceConfig { width: 640, height: 480, frame_duration_ns: 33_000_000 },
        })
    }

    /// Starts streaming into `pool`, replacing any pool streamed into before.
    pub fn start_streaming(&mut self, pool: P) -> (r: Result<(), DeviceError>)
        ensures
            r is Ok,
            final(self).pool == Some(pool),
            final(self).config == old(self).config,
    {
        self.pool = Some(pool);
        Ok(())
    }

    /// Stops streaming.
    pub fn stop_streaming(&mut self) -> (r: Result<(), DeviceError>)
        ensures
            r is Ok,
            final(self).pool is None,
            final(self).config == old(self).config,
    {
        self.pool = None;
        Ok(())
    }

    /// Whether frames are to be generated: the device streams into a pool.
    pub fn is_streaming(&self) -> (r: bool)
        ensures
            r == self.pool is Some,
    {
        self.pool.is_some()
    }

    /// Sets the time between frames.
    pub fn set_frame_duration_ns(&mut self, ns: u64)
        ensures
            final(self).pool == old(self).pool,
            final(self).config == (DummyDeviceConfig { frame_duration_ns: ns, ..old(self).config }),
    {
        self.config.frame_duration_ns = ns;
    }
}

/// Where the streaming of a dummy device stands: the number of the next frame
/// and the time it is due, in nanoseconds since streaming started.
pub struct StreamState {
    pub frame_no: u64,
    pub next_frame_ns: u64,
}

/// What the streaming does next.
#[derive(PartialEq, Eq, Structural, Clone, Copy, Debug)]
pub enum StreamAction {
    /// The device no longer streams: the stream ends.
    Finish,
    /// Generate frame `frame_no` of `width`x`height` pixels and offer it to
    /// the pool once `due_ns` nanoseconds have passed since streaming started.
    Produce { frame_no: u64, width: u32, height: u32, due_ns: u64 },
}

impl StreamState {
    /// Frame 0, due at once.
    pub fn new() -> (s: StreamState)
        ensures
            s.frame_no == 0,
            s.next_frame_ns == 0,
    {
        StreamState { frame_no: 0, next_frame_ns: 0 }
    }

    /// The next step of the stream of `device`: it ends when the device streams
    /// into no pool; otherwise the next frame, with the configured size, is
    /// due at the current deadline, and the deadline after it is one frame
    /// duration later.
    pub fn next_action<P>(&mut self, device: &DummyDevice<P>) -> (a: StreamAction)
        requires
            device.pool is Some ==> {
                &&& old(self).frame_no < u64::MAX
                &&& old(self).next_frame_ns + device.config.frame_duration_ns <= u64::MAX
            },
        ensures
            device.pool is None ==> {
                &&& a == StreamAction::Finish
                &&& final(self).frame_no == old(self).frame_no
                &&& final(self).next_frame_ns == old(self).next_frame_ns
            },
            device.pool is Some ==> {
                &&& a == (StreamAction::Produce {
                    frame_no: old(self).frame_no,
                    width: device.config.width,
                    height: device.config.height,
                    due_ns: old(self).next_frame_ns,
                })
                &&& final(self).frame_no == old(self).frame_no + 1
                &&& final(self).next_frame_ns == old(self).next_frame_ns
                    + device.config.frame_duration_ns
            },
    {
        if device.pool.is_none() {
            return StreamAction::Finish;
        }
        let config = device.config;
        let action = StreamAction::Produce {
            frame_no: self.frame_no,
            width: config.width,
            height: config.height,
            due_ns: self.next_frame_ns,
        };
        self.frame_no = self.frame_no + 1;
        self.next_frame_ns = self.next_frame_ns + config.frame_duration_ns;
        action
    }
}

/// Where a stream stands after `k` frames at a frame duration of `d`
/// nanoseconds: the next frame's number and its due time.
pub open spec fn stream_after(d: nat, k: nat) -> (nat, nat)
    decreases k,
{
    if k == 0 {
        (0, 0)
    } else {
        let (frame_no, due) = stream_after(d, (k - 1) as nat);
        (frame_no + 1, due + d)
    }
}

/// Over a whole stream at a fixed configuration: the `k`-th step (from 0)
/// produces frame number `k`, of the configured size, due `k·d` nanoseconds
/// after streaming started, whether or not the pool kept the earlier frames.
/// `StreamState::new` stands at `stream_after(d, 0)`, and each producing
/// `next_action` moves from `stream_after(d, k)` to `stream_after(d, k + 1)`.
pub proof fn law_stream_numbers_and_paces_frames(d: nat, k: nat)
    ensures
        stream_after(d, k) == (k, k * d),
        stream_after(d, k + 1) == (stream_after(d, k).0 + 1, stream_after(d, k).1 + d),
    decreases k,
{
    if k > 0 {
        law_stream_numbers_and_paces_frames(d, (k - 1) as nat);
        assert((k - 1) * d + d == k * d) by (nonlinear_arith)
            requires
                k > 0,
        ;
    } else {
        assert(0 * d == 0);
    }
    assert(k * d + d == (k + 1) * d) by (nonlinear_arith);
}

/// Pace: a frame is offered only once it is due (see `time_until_due`), so
/// when frame `k` has been offered by time `t` (nanoseconds since streaming
/// started), `k·d <= t`; hence at most `1 + t / d` frames are offered by `t`.
pub proof fn law_frames_offered_by(d: nat, k: nat, t: nat)
    requires
        d > 0,
        k * d <= t,
    ensures
        k <= t / d,
{
    assert(k <= t / d) by (nonlinear_arith)
        requires
            d > 0,
            k * d <= t,
    ;
}

/// How long to sleep before a frame due at `due_ns` may be offered, when
/// `elapsed_ns` nanoseconds have passed; `None` when it is due already.
pub fn time_until_due(due_ns: u64, elapsed_ns: u64) -> (r: Option<u64>)
    ensures
        match r {
            None => elapsed_ns >= due_ns,
            Some(wait) => elapsed_ns < due_ns && wait == due_ns - elapsed_ns,
        },
{
    if elapsed_ns >= due_ns {
        None
    } else {
        Some(due_ns - elapsed_ns)
    }
}

/// The outcome of a request to set `key` to `value` on the dummy device.
pub open spec fn spec_sampling_rate_request(key: PropertyKey, value: PropertyValue) -> Result<
    Fraction,
    DeviceError,
> {
    match key {
        PropertyKey::SamplingRate => match value {
            PropertyValue::Fraction(f) => if f.numerator == 0 || f.denominator == 0 {
                Err(DeviceError::InvalidArgument)
            } else {
                Ok(f)
            },
            _ => Err(DeviceError::InvalidArgument),
        },
        _ => Err(DeviceError::NotSupported),
    }
}

/// Checks a request to set a property of the dummy device. Only the sampling
/// rate can be set, as a fraction with a non-zero numerator and denominator;
/// the accepted rate is returned.
pub fn check_sampling_rate_request(key: PropertyKey, value: PropertyValue) -> (r: Result<
    Fraction,
    DeviceError,
>)
    ensures
        r == spec_sampling_rate_request(key, value),
        key != PropertyKey::SamplingRate ==> r == Err::<Fraction, DeviceError>(
            DeviceError::NotSupported,
        ),
        key == PropertyKey::SamplingRate ==> (if value matches PropertyValue::Fraction(f)
            && f.numerator != 0 && f.denominator != 0 {
            r == Ok::<Fraction, DeviceError>(value->Fraction_0)
        } else {
            r == Err::<Fraction, DeviceError>(DeviceError::InvalidArgument)
        }),
{
    match key {
        PropertyKey::SamplingRate => {
            let PropertyValue::Fraction(frac) = value else {
                return Err(DeviceError::InvalidArgument);
            };
            if frac.numerator == 0 || frac.denominator == 0 {
                return Err(DeviceError::InvalidArgument);
            }
            Ok(frac)
        },
        _ => Err(DeviceError::NotSupported),
    }
}

/// Checks a request to read a property of the dummy device: only the sampling
/// rate can be read.
pub fn check_property_readable(key: PropertyKey) -> (r: Result<(), DeviceError>)
    ensures
        r is Ok <==> key == PropertyKey::SamplingRate,
        r matches Err(e) ==> e == DeviceError::NotSupported,
{
    match key {
        PropertyKey::SamplingRate => Ok(()),
        _ => Err(DeviceError::NotSupported),
    }
}

/// The sampling rate reported for a frame duration given as a reduced fraction
/// of seconds `(negative, numerator, denominator)`, or `None` when the duration
/// is not a finite number. The rate is the reciprocal of the duration, each
/// part truncated to 32 bits.
pub open spec fn spec_sampling_rate_reply(duration: Option<(bool, u64, u64)>) -> Result<
    PropertyValue,
    DeviceError,
> {
    match duration {
        None => Err(DeviceError::OutOfRange),
        Some((negative, numer, denom)) => if negative {
            Err(DeviceError::OutOfRange)
        } else {
            Ok(
                PropertyValue::Fraction(
                    Fraction { numerator: denom as u32, denominator: numer as u32 },
                ),
            )
        },
    }
}

/// Reports the sampling rate for a frame duration in seconds, given as a
/// reduced fraction (see `spec_sampling_rate_reply`). A zero duration has no
/// reciprocal and is excluded.
pub fn sampling_rate_reply(duration: Option<(bool, u64, u64)>) -> (r: Result<PropertyValue, DeviceError>)
    requires
        duration matches Some((negative, numer, _)) ==> negative || numer != 0,
    ensures
        r == spec_sampling_rate_reply(duration),
        duration matches Some((negative, numer, denom)) ==> negative || r == Ok::<
            PropertyValue,
            DeviceError,
        >(PropertyValue::Fraction(Fraction { numerator: denom as u32, denominator: numer as u32 })),
        duration is None ==> r == Err::<PropertyValue, DeviceError>(DeviceError::OutOfRange),
        duration matches Some((negative, _, _)) ==> !negative || r == Err::<
            PropertyValue,
            DeviceError,
        >(DeviceError::OutOfRange),
{
    let Some((negative, numer, denom)) = duration else {
        return Err(DeviceError::OutOfRange);
    };
    if negative {
        return Err(DeviceError::OutOfRange);
    }
    // the reciprocal of numer/denom, numer > 0
    let (recip_numer, recip_denom) = (denom, numer);
    Ok(
        PropertyValue::Fraction(
            Fraction { numerator: recip_numer as u32, denominator: recip_denom as u32 },
        ),
    )
}

/// The frame data the dummy device produces for an RGB image of
/// `width`x`height` pixels: packed rows of `3 * width` bytes.
pub fn dummy_frame(width: u32, height: u32, samples: Vec<u8>) -> (f: FrameData)
    requires
        3 * width <= u32::MAX,
    ensures
        f matches FrameData::ByValue(DataType::Image(image)) && image.dimension == (Dimension {
            width,
            height,
            stride_bytes: (3 * width) as u32,
            pixel_format: PixelFormat::Rgb24,
        }) && image.payload == samples,
{
    let image = Image {
        dimension: Dimension {
            width,
            height,
            stride_bytes: width * 3,
            pixel_format: PixelFormat::Rgb24,
        },
        payload: samples,
    };
    FrameData::ByValue(DataType::Image(image))
}

/// A rate request is accepted exactly when it sets the sampling rate to a
/// fraction with a non-zero numerator and denominator, and the rate accepted
/// is the one requested, not its reciprocal: `f.numerator / f.denominator`
/// samples per second.
pub proof fn law_accepted_rate_is_requested(key: PropertyKey, value: PropertyValue)
    ensures
        spec_sampling_rate_request(key, value) is Ok <==> (key == PropertyKey::SamplingRate && (
        value matches PropertyValue::Fraction(f) && f.numerator != 0 && f.denominator != 0)),
        spec_sampling_rate_request(key, value) matches Ok(f) ==> value == PropertyValue::Fraction(
            f,
        ),
{
}

/// The reported rate is the reciprocal of the frame duration: for a duration
/// of `numer / denom` seconds whose parts fit in 32 bits, the reply
/// `f.numerator / f.denominator` satisfies
/// `f.numerator * numer == f.denominator * denom`, that is, rate times
/// duration is one frame; it is `denom / numer` itself.
pub proof fn law_reply_is_reciprocal_of_duration(numer: u64, denom: u64)
    requires
        0 < numer <= u32::MAX,
        denom <= u32::MAX,
    ensures
        spec_sampling_rate_reply(Some((false, numer, denom))) matches Ok(
            PropertyValue::Fraction(f),
        ) && f.numerator * numer == f.denominator * denom && f.numerator == denom
            && f.denominator == numer,
{
    assert(denom * numer == numer * denom) by (nonlinear_arith);
}

/// Reading the rate back gives the rate that was set: a rate `f` accepted by
/// a request sets frames `f.denominator / f.numerator` seconds apart, and the
/// reply for that frame duration is `f` again.
pub proof fn law_rate_set_then_read(f: Fraction)
    requires
        f.numerator != 0,
        f.denominator != 0,
    ensures
        spec_sampling_rate_request(PropertyKey::SamplingRate, PropertyValue::Fraction(f)) == Ok::<
            Fraction,
            DeviceError,
        >(f),
        spec_sampling_rate_reply(Some((false, f.denominator as u64, f.numerator as u64))) == Ok::<
            PropertyValue,
            DeviceError,
        >(PropertyValue::Fraction(f)),
{
}

} // verus!
