use wasi_sensor::dummy_device::{
    check_property_readable, check_sampling_rate_request, dummy_frame, sampling_rate_reply,
    time_until_due, DummyDevice, DummyDeviceConfig, DummyDeviceGroup, StreamAction, StreamState,
};
use wasi_sensor::types::{
    DataType, DeviceError, Dimension, Fraction, FrameData, PixelFormat, PropertyKey,
    PropertyValue,
};

fn dim() -> Dimension {
    Dimension { width: 1, height: 1, stride_bytes: 3, pixel_format: PixelFormat::Rgb24 }
}

#[test]
fn group_lists_one_dummy_device() {
    let group = DummyDeviceGroup {};
    assert_eq!(group.list_devices().unwrap(), vec!["dummy".to_string()]);
}

#[test]
fn opened_device_has_initial_config() {
    let group = DummyDeviceGroup {};
    let dev: DummyDevice<u32> = group.open_device("whatever").unwrap();
    assert!(dev.pool.is_none());
    assert_eq!(
        dev.config,
        DummyDeviceConfig { width: 640, height: 480, frame_duration_ns: 33_000_000 }
    );
}

#[test]
fn start_and_stop_streaming() {
    let mut dev: DummyDevice<&str> = DummyDevice::new().unwrap();
    assert!(!dev.is_streaming());
    assert_eq!(dev.start_streaming("pool-a"), Ok(()));
    assert!(dev.is_streaming());
    assert_eq!(dev.start_streaming("pool-b"), Ok(()));
    assert_eq!(dev.pool, Some("pool-b"));
    assert_eq!(dev.stop_streaming(), Ok(()));
    assert!(!dev.is_streaming());
}

#[test]
fn frame_duration_can_be_changed() {
    let mut dev: DummyDevice<u8> = DummyDevice::new().unwrap();
    dev.set_frame_duration_ns(100);
    assert_eq!(dev.config.frame_duration_ns, 100);
    assert_eq!((dev.config.width, dev.config.height), (640, 480));
}

#[test]
fn sampling_rate_request_accepts_nonzero_fraction() {
    let f = Fraction { numerator: 30, denominator: 1 };
    assert_eq!(
        check_sampling_rate_request(PropertyKey::SamplingRate, PropertyValue::Fraction(f)),
        Ok(f)
    );
}

#[test]
fn sampling_rate_request_refuses_zero_parts() {
    for f in [
        Fraction { numerator: 0, denominator: 1 },
        Fraction { numerator: 1, denominator: 0 },
    ] {
        assert_eq!(
            check_sampling_rate_request(PropertyKey::SamplingRate, PropertyValue::Fraction(f)),
            Err(DeviceError::InvalidArgument)
        );
    }
}

#[test]
fn sampling_rate_request_refuses_non_fraction() {
    assert_eq!(
        check_sampling_rate_request(PropertyKey::SamplingRate, PropertyValue::Dimension(dim())),
        Err(DeviceError::InvalidArgument)
    );
}

#[test]
fn dimension_property_is_not_supported() {
    let f = Fraction { numerator: 1, denominator: 1 };
    assert_eq!(
        check_sampling_rate_request(PropertyKey::Dimension, PropertyValue::Fraction(f)),
        Err(DeviceError::NotSupported)
    );
    assert_eq!(check_property_readable(PropertyKey::Dimension), Err(DeviceError::NotSupported));
    assert_eq!(check_property_readable(PropertyKey::SamplingRate), Ok(()));
}

#[test]
fn sampling_rate_reply_is_reciprocal_of_duration() {
    // 1/30 s per frame is 30 frames per second
    assert_eq!(
        sampling_rate_reply(Some((false, 1, 30))),
        Ok(PropertyValue::Fraction(Fraction { numerator: 30, denominator: 1 }))
    );
    // 33 ms per frame
    assert_eq!(
        sampling_rate_reply(Some((false, 33, 1000))),
        Ok(PropertyValue::Fraction(Fraction { numerator: 1000, denominator: 33 }))
    );
}

#[test]
fn sampling_rate_reply_truncates_to_32_bits() {
    assert_eq!(
        sampling_rate_reply(Some((false, 1, (1u64 << 32) + 5))),
        Ok(PropertyValue::Fraction(Fraction { numerator: 5, denominator: 1 }))
    );
}

#[test]
fn sampling_rate_reply_refuses_negative_or_non_finite() {
    assert_eq!(sampling_rate_reply(Some((true, 1, 2))), Err(DeviceError::OutOfRange));
    assert_eq!(sampling_rate_reply(None), Err(DeviceError::OutOfRange));
}

#[test]
fn dummy_frame_is_packed_rgb() {
    let f = dummy_frame(2, 1, vec![1, 2, 3, 4, 5, 6]);
    match f {
        FrameData::ByValue(DataType::Image(image)) => {
            assert_eq!(
                image.dimension,
                Dimension { width: 2, height: 1, stride_bytes: 6, pixel_format: PixelFormat::Rgb24 }
            );
            assert_eq!(image.payload, vec![1, 2, 3, 4, 5, 6]);
        }
        FrameData::HostMemory(_) => panic!("expected an image"),
    }
}

#[test]
fn stream_produces_numbered_frames_at_frame_intervals() {
    let mut dev: DummyDevice<u8> = DummyDevice::new().unwrap();
    dev.start_streaming(7).unwrap();
    let mut stream = StreamState::new();
    assert_eq!(
        stream.next_action(&dev),
        StreamAction::Produce { frame_no: 0, width: 640, height: 480, due_ns: 0 }
    );
    assert_eq!(
        stream.next_action(&dev),
        StreamAction::Produce { frame_no: 1, width: 640, height: 480, due_ns: 33_000_000 }
    );
    dev.set_frame_duration_ns(10);
    assert_eq!(
        stream.next_action(&dev),
        StreamAction::Produce { frame_no: 2, width: 640, height: 480, due_ns: 66_000_000 }
    );
    assert_eq!(
        stream.next_action(&dev),
        StreamAction::Produce { frame_no: 3, width: 640, height: 480, due_ns: 66_000_010 }
    );
}

#[test]
fn stream_finishes_when_streaming_stops() {
    let mut dev: DummyDevice<u8> = DummyDevice::new().unwrap();
    dev.start_streaming(7).unwrap();
    let mut stream = StreamState::new();
    stream.next_action(&dev);
    dev.stop_streaming().unwrap();
    assert_eq!(stream.next_action(&dev), StreamAction::Finish);
    assert_eq!(stream.frame_no, 1);
}

#[test]
fn waiting_until_due() {
    assert_eq!(time_until_due(100, 40), Some(60));
    assert_eq!(time_until_due(100, 100), None);
    assert_eq!(time_until_due(100, 150), None);
}

#[test]
fn kth_frame_is_numbered_k_and_due_at_k_durations() {
    let mut dev: DummyDevice<u8> = DummyDevice::new().unwrap();
    dev.start_streaming(1).unwrap();
    let mut stream = StreamState::new();
    for k in 0..10u64 {
        assert_eq!(
            stream.next_action(&dev),
            StreamAction::Produce { frame_no: k, width: 640, height: 480, due_ns: k * 33_000_000 }
        );
    }
}
