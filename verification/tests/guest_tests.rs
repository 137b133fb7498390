use wasi_sensor::guest::{
    guest_names, guest_pool_request, prepare_pixel_image, sampling_rate_value, FrameCounter,
    PreparedImage, SamplingRateError, FRAMES_TO_PROCESS,
};
use wasi_sensor::types::{BufferingMode, Dimension, Fraction, Image, PixelFormat, PropertyValue};

fn yuv_to_rgb_f32(y: i32, u: i32, v: i32) -> Vec<u8> {
    let y = 1.164f32 * ((y as f32) - 16.0);
    let u = u as f32 - 128.0;
    let v = v as f32 - 128.0;
    let r = y + 1.596 * v;
    let g = y - 0.293 * u - 0.813 * v;
    let b = y + 2.018 * u;
    vec![
        r.clamp(0.0, 255.0) as u8,
        g.clamp(0.0, 255.0) as u8,
        b.clamp(0.0, 255.0) as u8,
    ]
}

fn image(width: u32, height: u32, stride: u32, format: PixelFormat, payload: Vec<u8>) -> Image {
    Image {
        dimension: Dimension { width, height, stride_bytes: stride, pixel_format: format },
        payload,
    }
}

#[test]
fn default_names() {
    assert_eq!(guest_names(None, None), ("my-pool".to_string(), "dummy".to_string()));
    assert_eq!(
        guest_names(Some("p".to_string()), Some("dummy:dummy".to_string())),
        ("p".to_string(), "dummy:dummy".to_string())
    );
}

#[test]
fn pool_request_is_discarding_with_sixteen_buffers() {
    assert_eq!(guest_pool_request(), (BufferingMode::BufferingDiscard, 0, 16));
}

#[test]
fn sampling_rate_value_from_fraction() {
    assert_eq!(
        sampling_rate_value(Some((false, 15, 2))),
        Ok(PropertyValue::Fraction(Fraction { numerator: 15, denominator: 2 }))
    );
    assert_eq!(sampling_rate_value(Some((true, 15, 2))), Err(SamplingRateError::Negative));
    assert_eq!(sampling_rate_value(None), Err(SamplingRateError::NotRational));
}

#[test]
fn frame_counter_stops_at_target() {
    let mut c = FrameCounter::new();
    let mut n = 0;
    while c.wants_more() {
        c.record_frame();
        n += 1;
    }
    assert_eq!(n, FRAMES_TO_PROCESS);
    assert_eq!(c.processed, 60);
}

#[test]
fn rgb24_image_is_kept_as_is() {
    let payload: Vec<u8> = (0..12).collect();
    let img = image(2, 2, 6, PixelFormat::Rgb24, payload.clone());
    match prepare_pixel_image(&img, yuv_to_rgb_f32) {
        PreparedImage::Picture(p) => {
            assert_eq!((p.width, p.height, p.height_stride), (2, 2, 6));
            assert_eq!(p.samples, payload);
        }
        _ => panic!("expected a picture"),
    }
}

#[test]
fn yuy2_image_is_converted() {
    let payload = vec![16, 128, 235, 128, 235, 128, 16, 128];
    let img = image(2, 2, 4, PixelFormat::Yuy2, payload);
    // two rows of two pixels
    match prepare_pixel_image(&img, yuv_to_rgb_f32) {
        PreparedImage::Picture(p) => {
            assert_eq!((p.width, p.height, p.height_stride), (2, 2, 6));
            assert_eq!(p.samples, vec![0, 0, 0, 254, 254, 254, 254, 254, 254, 0, 0, 0]);
        }
        _ => panic!("expected a picture"),
    }
}

#[test]
fn other_formats_are_unsupported() {
    for format in [PixelFormat::Gray, PixelFormat::Bgr24, PixelFormat::Mjpeg] {
        let img = image(1, 1, 1, format, vec![0]);
        assert!(matches!(prepare_pixel_image(&img, yuv_to_rgb_f32), PreparedImage::Unsupported(f) if f == format));
    }
}

#[test]
fn short_payload_is_rejected() {
    let img = image(2, 2, 6, PixelFormat::Rgb24, vec![0; 5]);
    assert!(matches!(prepare_pixel_image(&img, yuv_to_rgb_f32), PreparedImage::LayoutRejected));
}

#[test]
fn unpacked_rgb_rows_are_rejected() {
    // rows 8 bytes apart, two padding bytes each: not packed row-major
    let img = image(2, 2, 8, PixelFormat::Rgb24, vec![0; 16]);
    assert!(matches!(prepare_pixel_image(&img, yuv_to_rgb_f32), PreparedImage::LayoutRejected));
}

#[test]
fn yuy2_padding_is_not_converted() {
    let payload = vec![16, 128, 235, 128, 9, 9, 9, 9];
    let img = image(2, 1, 8, PixelFormat::Yuy2, payload);
    match prepare_pixel_image(&img, yuv_to_rgb_f32) {
        PreparedImage::Picture(p) => {
            assert_eq!(p.height_stride, 6);
            assert_eq!(p.samples, vec![0, 0, 0, 254, 254, 254]);
        }
        _ => panic!("expected a picture"),
    }
}

#[test]
fn yuy2_payload_short_of_rows_is_rejected() {
    // two rows expected, one present
    let img = image(2, 2, 4, PixelFormat::Yuy2, vec![16, 128, 16, 128]);
    assert!(matches!(prepare_pixel_image(&img, yuv_to_rgb_f32), PreparedImage::LayoutRejected));
}

#[test]
fn degenerate_layouts() {
    // no column: rejected
    let img = image(0, 2, 0, PixelFormat::Rgb24, vec![]);
    assert!(matches!(prepare_pixel_image(&img, yuv_to_rgb_f32), PreparedImage::LayoutRejected));
    // one column and no row: rejected
    let img = image(1, 0, 3, PixelFormat::Rgb24, vec![]);
    assert!(matches!(prepare_pixel_image(&img, yuv_to_rgb_f32), PreparedImage::LayoutRejected));
    // two columns and no row: accepted
    let img = image(2, 0, 6, PixelFormat::Rgb24, vec![]);
    assert!(matches!(prepare_pixel_image(&img, yuv_to_rgb_f32), PreparedImage::Picture(_)));
}

#[test]
fn longer_payload_is_accepted() {
    let img = image(1, 1, 3, PixelFormat::Rgb24, vec![1, 2, 3, 4]);
    assert!(matches!(prepare_pixel_image(&img, yuv_to_rgb_f32), PreparedImage::Picture(_)));
}
