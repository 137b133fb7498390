package wasi:sensor;

interface property {
    use wasi:buffer-pool/data-types.{dimension};

    record fraction {
        numerator: u32,
        denominator: u32,
    }

    enum property-key {
        /// The number of samples in a second (a fraction),
        /// e.g. the frame rate of an image sensor.
        sampling-rate,
        dimension,
    }

    variant property-value {
        fraction(fraction),
        dimension(dimension),
    }
}

interface sensor {
    use property.{property-key, property-value};

    enum device-error {
        not-found,
        invalid-argument,
        resource-exhausted,
        permission-denied,
        busy,
        timeout,
        cancelled,
        aborted,
        already-exists,
        invalid-operation,
        out-of-range,
        data-loss,
        hardware-error,
        not-supported,
        unknown,
    }

    /// A sensor device.
    resource device {
        /// Opens the device; this might power it on.
        open: static func(name: string) -> result<device, device-error>;
        /// Names of the devices available on the system.
        list-names: static func() -> result<list<string>, device-error>;
        /// Starts sending data to the named buffer pool.
        start: func(buffer-pool: string) -> result<_, device-error>;
        /// Stops sending data.
        stop: func() -> result<_, device-error>;
        set-property: func(key: property-key, value: property-value) -> result<_, device-error>;
        get-property: func(property: property-key) -> result<property-value, device-error>;
    }
}

interface %interface {
    main: func() -> result;
}

world sensing {
    import wasi:buffer-pool/data-types;
    import property;
    import sensor;
    import wasi:io/poll@0.2.0;
    import wasi:buffer-pool/buffer-pool;
    export %interface;
}
