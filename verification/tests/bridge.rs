use s7_device::errors::S7Error;
use s7_device::industrial_device::{
    connect_result, dump_registers_result, IndustrialDeviceError, Value,
};
use s7_device::types::RegisterValue;

fn all_errors() -> Vec<S7Error> {
    vec![
        S7Error::S7ClientError { err: String::from("ISO: connection refused") },
        S7Error::DeviceNotConnectedError,
        S7Error::MismatchedRegisterLengthError,
        S7Error::RegisterDoesNotExistsError,
        S7Error::InvalidRegisterValue,
    ]
}

#[test]
fn values_keep_variant_and_content() {
    assert_eq!(Value::from(RegisterValue::S16(-7)), Value::S16(-7));
    assert_eq!(Value::from(RegisterValue::S32(70_000)), Value::S32(70_000));
    assert_eq!(Value::from(RegisterValue::Float32(0x3f80_0000)), Value::Float32(0x3f80_0000));
    assert_eq!(Value::from(RegisterValue::Boolean(true)), Value::Boolean(true));
    assert_eq!(Value::from(RegisterValue::Boolean(false)), Value::Boolean(false));
    let via_into: Value = RegisterValue::S16(i16::MIN).into();
    assert_eq!(via_into, Value::S16(i16::MIN));
}

#[test]
fn float_value_keeps_its_number() {
    match Value::from(RegisterValue::Float32(2.5f32.to_bits())) {
        Value::Float32(bits) => assert_eq!(f32::from_bits(bits), 2.5f32),
        other => panic!("unexpected {:?}", other),
    }
}

#[test]
fn not_connected_keeps_its_own_kind() {
    assert_eq!(
        IndustrialDeviceError::from(S7Error::DeviceNotConnectedError),
        IndustrialDeviceError::DeviceNotConnectedError { err: S7Error::DeviceNotConnectedError }
    );
}

#[test]
fn other_failures_are_failed_requests() {
    assert_eq!(
        IndustrialDeviceError::from(S7Error::MismatchedRegisterLengthError),
        IndustrialDeviceError::RequestError { err: S7Error::MismatchedRegisterLengthError }
    );
    assert_eq!(
        IndustrialDeviceError::from(S7Error::RegisterDoesNotExistsError),
        IndustrialDeviceError::RequestError { err: S7Error::RegisterDoesNotExistsError }
    );
    assert_eq!(
        IndustrialDeviceError::from(S7Error::InvalidRegisterValue),
        IndustrialDeviceError::RequestError { err: S7Error::InvalidRegisterValue }
    );
    assert_eq!(
        IndustrialDeviceError::from(S7Error::S7ClientError { err: String::from("timeout") }),
        IndustrialDeviceError::RequestError {
            err: S7Error::S7ClientError { err: String::from("timeout") }
        }
    );
}

#[test]
fn bridged_failure_carries_what_caused_it() {
    for failure in all_errors() {
        let bridged = IndustrialDeviceError::from(failure.clone());
        let not_connected = failure == S7Error::DeviceNotConnectedError;
        match bridged {
            IndustrialDeviceError::DeviceNotConnectedError { err } => {
                assert!(not_connected);
                assert_eq!(err, failure);
            }
            IndustrialDeviceError::RequestError { err } => {
                assert!(!not_connected);
                assert_eq!(err, failure);
            }
        }
    }
}

#[test]
fn bridged_failures_stay_apart() {
    let errors = all_errors();
    for (i, a) in errors.iter().enumerate() {
        for (j, b) in errors.iter().enumerate() {
            let same = IndustrialDeviceError::from(a.clone()) == IndustrialDeviceError::from(b.clone());
            assert_eq!(same, i == j);
        }
    }
    assert_ne!(
        IndustrialDeviceError::from(S7Error::S7ClientError { err: String::from("a") }),
        IndustrialDeviceError::from(S7Error::S7ClientError { err: String::from("b") })
    );
}

#[test]
fn connect_success_stays_success() {
    assert_eq!(connect_result(Ok(())), Ok(()));
}

#[test]
fn connect_failure_is_bridged() {
    assert_eq!(
        connect_result(Err(S7Error::S7ClientError { err: String::from("unreachable host") })),
        Err(IndustrialDeviceError::RequestError {
            err: S7Error::S7ClientError { err: String::from("unreachable host") }
        })
    );
    assert_eq!(
        connect_result(Err(S7Error::DeviceNotConnectedError)),
        Err(IndustrialDeviceError::DeviceNotConnectedError {
            err: S7Error::DeviceNotConnectedError
        })
    );
}

#[test]
fn dump_rewrites_every_value_and_keeps_names() {
    let read = vec![
        (String::from("speed"), RegisterValue::S16(-120)),
        (String::from("count"), RegisterValue::S32(1_000_000)),
        (String::from("temp"), RegisterValue::Float32(21.5f32.to_bits())),
        (String::from("alarm"), RegisterValue::Boolean(true)),
    ];
    let expected = vec![
        (String::from("speed"), Value::S16(-120)),
        (String::from("count"), Value::S32(1_000_000)),
        (String::from("temp"), Value::Float32(21.5f32.to_bits())),
        (String::from("alarm"), Value::Boolean(true)),
    ];
    assert_eq!(dump_registers_result(Ok(read)), Ok(expected));
}

#[test]
fn dump_of_no_registers_is_empty() {
    assert_eq!(dump_registers_result(Ok(Vec::new())), Ok(Vec::new()));
}

#[test]
fn dump_before_connect_is_not_connected() {
    assert_eq!(
        dump_registers_result(Err(S7Error::DeviceNotConnectedError)),
        Err(IndustrialDeviceError::DeviceNotConnectedError {
            err: S7Error::DeviceNotConnectedError
        })
    );
}

#[test]
fn dump_failure_is_bridged() {
    for failure in all_errors() {
        let got = dump_registers_result(Err(failure.clone()));
        assert_eq!(got, Err(IndustrialDeviceError::from(failure)));
    }
    assert_eq!(
        dump_registers_result(Err(S7Error::RegisterDoesNotExistsError)),
        Err(IndustrialDeviceError::RequestError { err: S7Error::RegisterDoesNotExistsError })
    );
}
