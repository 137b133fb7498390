package wasi:buffer-pool;

interface data-types {
    record vector3f {
        x: f32,
        y: f32,
        z: f32,
    }

    record quaternion-f {
        x: f32,
        y: f32,
        z: f32,
        w: f32,
    }

    enum pixel-format {
        gray,
        rgb24,
        bgr24,
        argb32,
        abgr32,
        yuy2,
        mjpeg,
    }

    record dimension {
        width: u32,
        height: u32,
        /// 0 for compressed formats like mjpeg.
        stride-bytes: u32,
        pixel-format: pixel-format,
    }

    record image {
        dimension: dimension,
        payload: list<u8>,
    }

    record depth {
        payload: list<u8>,
    }

    variant data-type {
        image(image),
    }
}

interface buffer-pool {
    use wasi:io/poll@0.2.0.{pollable};
    use data-types.{data-type};

    enum buffer-error {
        not-found,
        invalid-argument,
        resource-exhausted,
        permission-denied,
        busy,
        timeout,
        cancelled,
        aborted,
        already-exists,
        invalid-operation,
        out-of-range,
        data-loss,
        hardware-error,
        not-supported,
        unknown,
    }

    type size = u32;

    /// Nanoseconds since a fixed point in the past; increases monotonically.
    type timestamp = u64;

    resource memory {
        address: func() -> u64;
        size: func() -> size;
        invalidate: func() -> result<_, buffer-error>;
    }

    variant frame-data {
        by-value(data-type),
        host-memory(memory),
    }

    record frame-info {
        sequence-number: u64,
        timestamp: timestamp,
        data: list<frame-data>,
    }

    enum buffering-mode {
        buffering-off,
        buffering-discard,
        buffering-overwrite,
        buffering-unlimited,
    }

    record pool-statistics {
        enqueued: u64,
        dropped: u64,
        dequeued: u64,
    }

    resource pool {
        create: static func(mode: buffering-mode, size: u32, buffer-num: u32, name: string) -> result<pool, buffer-error>;
        read-frames: func(max-results: u32) -> result<list<frame-info>, buffer-error>;
        subscribe: func() -> pollable;
        get-statistics: func() -> result<pool-statistics, buffer-error>;
    }
}
