//! The guest application's logic: what it asks of the host, how it prepares a
//! received image for storing as an RGB picture, and when it stops reading.

use image::flat::{FlatSamples, SampleLayout};
use image::{ImageBuffer, Rgb};
use vstd::prelude::*;

use crate::dummy_device::spec_sampling_rate_request;
use crate::types::{
    BufferingMode, DeviceError, Fraction, Image, PixelFormat, PropertyKey, PropertyValue,
};
use crate::yuv::{convert_yuy2_to_rgb, converted_by, spec_yuy2_samples};

verus! {

/// Pool the guest reads from when none is named.
pub const DEFAULT_POOL_NAME: &'static str = "my-pool";

/// Sensor the guest opens when none is named.
pub const DEFAULT_DEVICE_NAME: &'static str = "dummy";

/// Buffers in the pool the guest creates.
pub const POOL_BUFFERS: u32 = 16;

/// Buffer size the guest asks for (unspecified).
pub const POOL_FRAME_SIZE: u32 = 0;

/// Frames the guest processes before it reports the pool statistics.
pub const FRAMES_TO_PROCESS: u32 = 60;

/// Channels of an RGB picture.
pub const RGB_CHANNELS: u32 = 3;

/// The pool the guest creates: discarding, `POOL_BUFFERS` buffers.
pub fn guest_pool_request() -> (r: (BufferingMode, u32, u32))
    ensures
        r == (BufferingMode::BufferingDiscard, POOL_FRAME_SIZE, POOL_BUFFERS),
{
    (BufferingMode::BufferingDiscard, POOL_FRAME_SIZE, POOL_BUFFERS)
}

/// The pool and sensor names the guest uses: the ones given, or the defaults.
pub fn guest_names(pool: Option<String>, sensor: Option<String>) -> (r: (String, String))
    ensures
        r.0@ == (match pool {
            Some(p) => p@,
            None => DEFAULT_POOL_NAME@,
        }),
        r.1@ == (match sensor {
            Some(s) => s@,
            None => DEFAULT_DEVICE_NAME@,
        }),
{
    let pool_name = match pool {
        Some(p) => p,
        None => DEFAULT_POOL_NAME.to_owned(),
    };
    let device_name = match sensor {
        Some(s) => s,
        None => DEFAULT_DEVICE_NAME.to_owned(),
    };
    (pool_name, device_name)
}

/// Why a requested sampling rate cannot be sent to the sensor.
#[derive(PartialEq, Eq, Structural, Clone, Copy, Debug)]
pub enum SamplingRateError {
    /// The rate is not a finite number.
    NotRational,
    /// The rate is negative.
    Negative,
}

/// The property value for a requested sampling rate given as a reduced
/// fraction `(negative, numerator, denominator)`, or `None` when the rate is
/// not a finite number; each part is truncated to 32 bits.
pub open spec fn spec_sampling_rate_value(rate: Option<(bool, u64, u64)>) -> Result<
    PropertyValue,
    SamplingRateError,
> {
    match rate {
        None => Err(SamplingRateError::NotRational),
        Some((negative, numer, denom)) => if negative {
            Err(SamplingRateError::Negative)
        } else {
            Ok(
                PropertyValue::Fraction(
                    Fraction { numerator: numer as u32, denominator: denom as u32 },
                ),
            )
        },
    }
}

/// Turns a requested sampling rate, as a reduced fraction, into the property
/// value sent to the sensor.
pub fn sampling_rate_value(rate: Option<(bool, u64, u64)>) -> (r: Result<PropertyValue, SamplingRateError>)
    ensures
        r == spec_sampling_rate_value(rate),
        rate matches Some((negative, numer, denom)) ==> negative || r == Ok::<
            PropertyValue,
            SamplingRateError,
        >(PropertyValue::Fraction(Fraction { numerator: numer as u32, denominator: denom as u32 })),
        rate is None ==> r == Err::<PropertyValue, SamplingRateError>(
            SamplingRateError::NotRational,
        ),
        rate matches Some((negative, _, _)) ==> !negative || r == Err::<
            PropertyValue,
            SamplingRateError,
        >(SamplingRateError::Negative),
{
    let Some((negative, numer, denom)) = rate else {
        return Err(SamplingRateError::NotRational);
    };
    if negative {
        return Err(SamplingRateError::Negative);
    }
    Ok(PropertyValue::Fraction(Fraction { numerator: numer as u32, denominator: denom as u32 }))
}

/// The value sent is the requested rate itself, never its reciprocal: for a
/// rate of `numer / denom` samples per second whose parts fit in 32 bits, the
/// value `f` satisfies `f.numerator * denom == numer * f.denominator`, with
/// `f.numerator == numer` and `f.denominator == denom`.
pub proof fn law_value_is_requested_rate(numer: u64, denom: u64)
    requires
        numer <= u32::MAX,
        denom <= u32::MAX,
    ensures
        spec_sampling_rate_value(Some((false, numer, denom))) matches Ok(
            PropertyValue::Fraction(f),
        ) && f.numerator * denom == numer * f.denominator && f.numerator == numer
            && f.denominator == denom,
{
}

/// The dummy sensor accepts the guest's request for any positive rate whose
/// parts fit in 32 bits, and takes exactly that rate.
pub proof fn law_requested_rate_accepted(numer: u64, denom: u64)
    requires
        0 < numer <= u32::MAX,
        0 < denom <= u32::MAX,
    ensures
        spec_sampling_rate_value(Some((false, numer, denom))) matches Ok(v)
            && spec_sampling_rate_request(PropertyKey::SamplingRate, v) == Ok::<
            Fraction,
            DeviceError,
        >(Fraction { numerator: numer as u32, denominator: denom as u32 }),
{
}

/// Counts processed frames until the guest has seen enough.
pub struct FrameCounter {
    pub processed: u32,
}

impl FrameCounter {
    /// No frame processed yet.
    pub fn new() -> (c: FrameCounter)
        ensures
            c.processed == 0,
    {
        FrameCounter { processed: 0 }
    }

    /// Whether the guest waits for more frames.
    pub fn wants_more(&self) -> (r: bool)
        ensures
            r == (self.processed < FRAMES_TO_PROCESS),
    {
        self.processed < FRAMES_TO_PROCESS
    }

    /// Counts one processed frame.
    pub fn record_frame(&mut self)
        requires
            old(self).processed < FRAMES_TO_PROCESS,
        ensures
            final(self).processed == old(self).processed + 1,
    {
        self.processed = self.processed + 1;
    }
}

/// A packed RGB picture ready for storing: 3 channels of one byte, 3 bytes from
/// one pixel to the next, `height_stride` bytes from one row to the next.
pub struct RgbPicture {
    pub width: u32,
    pub height: u32,
    pub height_stride: usize,
    pub samples: Vec<u8>,
}

/// What becomes of a received image.
pub enum PreparedImage {
    /// It can be stored as this picture.
    Picture(RgbPicture),
    /// Its pixel format is not handled; it is dropped.
    Unsupported(PixelFormat),
    /// The picture's layout does not describe its samples as a packed
    /// row-major RGB image.
    LayoutRejected,
}

/// Whether the image library accepts samples as a packed row-major RGB image
/// (3 channels of one byte, 3 bytes from one pixel to the next) of
/// `width`x`height` pixels with rows `height_stride` bytes apart: the rows must
/// be packed, the image must have a column (and, with one column, a row), and
/// the samples must cover every pixel.
pub open spec fn rgb_layout_accepted(width: u32, height: u32, height_stride: int, len: int) -> bool {
    &&& height_stride == 3 * width
    &&& width >= 1
    &&& (width >= 2 || height >= 1)
    &&& len >= 3 * width * height
}

/// Calls `image::flat::FlatSamples::try_into_buffer::<Rgb<u8>>` on the samples
/// with the given layout and tells whether it succeeds. Claimed, for the
/// packed RGB pixel layout (3 channels, channel stride 1, pixel stride 3): it
/// succeeds exactly under `rgb_layout_accepted`, which is what its checks of
/// aliasing, packing, row-major order, channel count and minimum length come
/// to for that layout.
#[verifier::external_body]
fn rgb_buffer_accepted(
    channels: u8,
    channel_stride: usize,
    width: u32,
    width_stride: usize,
    height: u32,
    height_stride: usize,
    samples: &[u8],
) -> (ok: bool)
    requires
        channels == 3,
        channel_stride == 1,
        width_stride == 3,
        3 * width <= usize::MAX,
    ensures
        ok == rgb_layout_accepted(width, height, height_stride as int, samples@.len() as int),
{
    let layout = SampleLayout {
        channels,
        channel_stride,
        width,
        width_stride,
        height,
        height_stride,
    };
    let flat = FlatSamples { samples, layout, color_hint: None };
    let buffer: Result<ImageBuffer<Rgb<u8>, &[u8]>, _> = flat.try_into_buffer();
    buffer.is_ok()
}

/// `picture` has the geometry `width`x`height`, rows `height_stride` bytes
/// apart.
pub open spec fn picture_geometry(
    picture: RgbPicture,
    width: u32,
    height: u32,
    height_stride: int,
) -> bool {
    &&& picture.width == width
    &&& picture.height == height
    &&& picture.height_stride == height_stride
}

/// The picture for an image, before its layout is checked: RGB24 payloads are
/// taken as they are, with the image's stride; YUY2 images are converted pixel
/// by pixel with `yuv_to_rgb` into packed RGB rows of `3 * width` bytes; other
/// formats are not handled.
pub fn picture_of<F: Fn(i32, i32, i32) -> Vec<u8>>(image: &Image, yuv_to_rgb: F) -> (r: PreparedImage)
    requires
        forall|y: i32, u: i32, v: i32| yuv_to_rgb.requires((y, u, v)),
        image.dimension.pixel_format == PixelFormat::Yuy2 ==> {
            &&& image.dimension.stride_bytes > 0
            &&& RGB_CHANNELS * image.dimension.width <= u32::MAX
        },
    ensures
        match image.dimension.pixel_format {
            PixelFormat::Rgb24 => r matches PreparedImage::Picture(p) && picture_geometry(
                p,
                image.dimension.width,
                image.dimension.height,
                image.dimension.stride_bytes as int,
            ) && p.samples@ == image.payload@,
            PixelFormat::Yuy2 => r matches PreparedImage::Picture(p) && picture_geometry(
                p,
                image.dimension.width,
                image.dimension.height,
                RGB_CHANNELS * image.dimension.width,
            ) && converted_by(
                yuv_to_rgb,
                spec_yuy2_samples(
                    image.dimension.width as nat,
                    image.dimension.height as nat,
                    image.dimension.stride_bytes as nat,
                    image.payload@,
                ),
                p.samples@,
            ),
            other => r matches PreparedImage::Unsupported(f) && f == other,
        },
{
    let dimension = image.dimension;
    match dimension.pixel_format {
        PixelFormat::Rgb24 => {
            let samples = image.payload.clone();
            assert(samples@ =~= image.payload@);
            PreparedImage::Picture(
                RgbPicture {
                    width: dimension.width,
                    height: dimension.height,
                    height_stride: dimension.stride_bytes as usize,
                    samples,
                },
            )
        },
        PixelFormat::Yuy2 => {
            let samples = convert_yuy2_to_rgb(
                dimension.width,
                dimension.height,
                dimension.stride_bytes,
                &image.payload,
                yuv_to_rgb,
            );
            let stride = dimension.width * RGB_CHANNELS;
            PreparedImage::Picture(
                RgbPicture {
                    width: dimension.width,
                    height: dimension.height,
                    height_stride: stride as usize,
                    samples,
                },
            )
        },
        other => PreparedImage::Unsupported(other),
    }
}

/// Keeps a prepared picture when its layout was accepted and reports it
/// rejected otherwise; unsupported images stay as they are.
pub fn checked_picture(prepared: PreparedImage, accepted: bool) -> (r: PreparedImage)
    ensures
        match prepared {
            PreparedImage::Picture(p) => if accepted {
                r == PreparedImage::Picture(p)
            } else {
                r is LayoutRejected
            },
            other => r == other,
        },
{
    match prepared {
        PreparedImage::Picture(p) => if accepted {
            PreparedImage::Picture(p)
        } else {
            PreparedImage::LayoutRejected
        },
        other => other,
    }
}

/// Prepares a received image for storing as an RGB picture: the picture of
/// `picture_of`, kept when the image library accepts its layout as a packed
/// row-major RGB image (`rgb_layout_accepted`).
pub fn prepare_pixel_image<F: Fn(i32, i32, i32) -> Vec<u8>>(image: &Image, yuv_to_rgb: F) -> (r: PreparedImage)
    requires
        forall|y: i32, u: i32, v: i32| yuv_to_rgb.requires((y, u, v)),
        RGB_CHANNELS * image.dimension.width <= usize::MAX,
        image.dimension.pixel_format == PixelFormat::Yuy2 ==> {
            &&& image.dimension.stride_bytes > 0
            &&& RGB_CHANNELS * image.dimension.width <= u32::MAX
        },
    ensures
        match image.dimension.pixel_format {
            PixelFormat::Rgb24 => if rgb_layout_accepted(
                image.dimension.width,
                image.dimension.height,
                image.dimension.stride_bytes as int,
                image.payload@.len() as int,
            ) {
                r matches PreparedImage::Picture(p) && picture_geometry(
                    p,
                    image.dimension.width,
                    image.dimension.height,
                    image.dimension.stride_bytes as int,
                ) && p.samples@ == image.payload@
            } else {
                r is LayoutRejected
            },
            PixelFormat::Yuy2 => {
                let samples = spec_yuy2_samples(
                    image.dimension.width as nat,
                    image.dimension.height as nat,
                    image.dimension.stride_bytes as nat,
                    image.payload@,
                );
                let w = image.dimension.width;
                let h = image.dimension.height;
                &&& r is Picture || r is LayoutRejected
                &&& r matches PreparedImage::Picture(p) ==> {
                    &&& picture_geometry(p, w, h, RGB_CHANNELS * w)
                    &&& converted_by(yuv_to_rgb, samples, p.samples@)
                    &&& rgb_layout_accepted(w, h, RGB_CHANNELS * w, p.samples@.len() as int)
                }
                &&& r is LayoutRejected ==> exists|out: Seq<u8>|
                    {
                        &&& converted_by(yuv_to_rgb, samples, out)
                        &&& !rgb_layout_accepted(w, h, RGB_CHANNELS * w, out.len() as int)
                    }
            },
            other => r matches PreparedImage::Unsupported(f) && f == other,
        },
{
    let prepared = picture_of(image, yuv_to_rgb);
    let accepted = match &prepared {
        PreparedImage::Picture(p) => rgb_buffer_accepted(
            3,
            1,
            p.width,
            3,
            p.height,
            p.height_stride,
            p.samples.as_slice(),
        ),
        _ => true,
    };
    checked_picture(prepared, accepted)
}

} // verus!
