//! The vocabulary shared by all device backends, and the bridge that takes
//! S7 values and S7 failures onto it.

use crate::errors::S7Error;
use crate::types::RegisterValue;
use vstd::prelude::*;

verus! {

/// A register value in the shared vocabulary.
///
/// `Float32` carries the IEEE-754 bit pattern, as `RegisterValue::Float32`
/// does.
#[derive(Debug, Clone, Copy, PartialEq, Eq, Structural)]
pub enum Value {
    S16(i16),
    S32(i32),
    Float32(u32),
    Boolean(bool),
}

/// A failure in the shared vocabulary. Either kind carries the backend
/// failure that caused it.
#[derive(Debug, Clone, PartialEq, Eq)]
pub enum IndustrialDeviceError {
    /// The device was used before a successful connect.
    DeviceNotConnectedError { err: S7Error },
    /// A request to a connected device did not yield what was asked for.
    RequestError { err: S7Error },
}

impl IndustrialDeviceError {
    /// The backend failure behind this one.
    pub open spec fn cause(self) -> S7Error {
        match self {
            IndustrialDeviceError::DeviceNotConnectedError { err } => err,
            IndustrialDeviceError::RequestError { err } => err,
        }
    }
}

/// The shared value that stands for `value`: the same variant with the same
/// content.
pub open spec fn bridged_value(value: RegisterValue) -> Value {
    match value {
        RegisterValue::S16(val) => Value::S16(val),
        RegisterValue::S32(val) => Value::S32(val),
        RegisterValue::Float32(val) => Value::Float32(val),
        RegisterValue::Boolean(val) => Value::Boolean(val),
    }
}

/// The shared failure that stands for `err`. A missing connection keeps a
/// kind of its own; every other failure is a failed request. Either way
/// `err` itself travels along as the cause.
pub open spec fn bridged_error(err: S7Error) -> IndustrialDeviceError {
    if err is DeviceNotConnectedError {
        IndustrialDeviceError::DeviceNotConnectedError { err }
    } else {
        IndustrialDeviceError::RequestError { err }
    }
}

/// A register dump with every value taken onto the shared vocabulary. Names
/// and order stay as they are.
pub open spec fn bridged_registers(registers: Seq<(String, RegisterValue)>) -> Seq<
    (String, Value),
> {
    registers.map_values(|entry: (String, RegisterValue)| (entry.0, bridged_value(entry.1)))
}

/// No name occurs twice in `registers`.
pub open spec fn names_unique<V>(registers: Seq<(String, V)>) -> bool {
    forall|i: int, j: int|
        0 <= i < j < registers.len() ==> (#[trigger] registers[i]).0@
            != (#[trigger] registers[j]).0@
}

/// The mapping from name to value that a dump stands for. Were a name to
/// occur twice, its last entry would count.
pub open spec fn dump_map<V>(registers: Seq<(String, V)>) -> Map<Seq<char>, V>
    decreases registers.len(),
{
    if registers.len() == 0 {
        Map::empty()
    } else {
        dump_map(registers.drop_last()).insert(registers.last().0@, registers.last().1)
    }
}

impl From<RegisterValue> for Value {
    fn from(value: RegisterValue) -> (ret: Value)
        ensures
            ret == bridged_value(value),
    {
        match value {
            RegisterValue::S16(val) => Value::S16(val),
            RegisterValue::S32(val) => Value::S32(val),
            RegisterValue::Float32(val) => Value::Float32(val),
            RegisterValue::Boolean(val) => Value::Boolean(val),
        }
    }
}

impl vstd::std_specs::convert::FromSpecImpl<RegisterValue> for Value {
    open spec fn obeys_from_spec() -> bool {
        true
    }

    open spec fn from_spec(value: RegisterValue) -> Value {
        bridged_value(value)
    }
}

impl From<S7Error> for IndustrialDeviceError {
    fn from(value: S7Error) -> (ret: IndustrialDeviceError)
        ensures
            ret == bridged_error(value),
            ret.cause() == value,
            ret is DeviceNotConnectedError <==> value is DeviceNotConnectedError,
            ret is RequestError <==> !(value is DeviceNotConnectedError),
    {
        match value {
            S7Error::S7ClientError { .. } => IndustrialDeviceError::RequestError { err: value },
            S7Error::DeviceNotConnectedError => IndustrialDeviceError::DeviceNotConnectedError {
                err: value,
            },
            S7Error::MismatchedRegisterLengthError => IndustrialDeviceError::RequestError {
                err: value,
            },
            S7Error::RegisterDoesNotExistsError => IndustrialDeviceError::RequestError {
                err: value,
            },
            S7Error::InvalidRegisterValue => IndustrialDeviceError::RequestError { err: value },
        }
    }
}

impl vstd::std_specs::convert::FromSpecImpl<S7Error> for IndustrialDeviceError {
    open spec fn obeys_from_spec() -> bool {
        true
    }

    open spec fn from_spec(value: S7Error) -> IndustrialDeviceError {
        bridged_error(value)
    }
}

/// What `connect` reports to its caller, given what the transport answered:
/// success as it is, a failure taken onto the shared vocabulary.
pub fn connect_result(outcome: Result<(), S7Error>) -> (ret: Result<(), IndustrialDeviceError>)
    ensures
        outcome is Ok ==> ret == Ok::<(), IndustrialDeviceError>(()),
        outcome matches Err(err) ==> ret == Err::<(), IndustrialDeviceError>(bridged_error(err)),
{
    match outcome {
        Ok(()) => Ok(()),
        Err(err) => Err(IndustrialDeviceError::from(err)),
    }
}

/// What `dump_registers` reports to its caller, given what the transport
/// answered. A dump comes back entry by entry with each value taken onto the
/// shared vocabulary; a failure comes back bridged, and no value with it.
pub fn dump_registers_result(outcome: Result<Vec<(String, RegisterValue)>, S7Error>) -> (ret:
    Result<Vec<(String, Value)>, IndustrialDeviceError>)
    ensures
        outcome matches Ok(registers) ==> ret matches Ok(values)
            && values@ == bridged_registers(registers@),
        outcome matches Ok(registers) ==> ret matches Ok(values)
            && (names_unique(registers@) ==> names_unique(values@)),
        outcome matches Ok(registers) ==> ret matches Ok(values)
            && dump_map(values@)
                == dump_map(registers@).map_values(|value: RegisterValue| bridged_value(value)),
        outcome matches Err(err) ==> ret
            == Err::<Vec<(String, Value)>, IndustrialDeviceError>(bridged_error(err)),
{
    match outcome {
        Ok(registers) => {
            let mut values: Vec<(String, Value)> = Vec::new();
            let mut i: usize = 0;
            while i < registers.len()
                invariant
                    i <= registers.len(),
                    values@ == bridged_registers(registers@.take(i as int)),
                decreases registers.len() - i,
            {
                let name = registers[i].0.clone();
                let value = Value::from(registers[i].1);
                values.push((name, value));
                proof {
                    let done = registers@.take(i as int);
                    assert(registers@.take(i + 1) == done.push(registers@[i as int]));
                    assert(values@ == bridged_registers(registers@.take(i + 1)));
                }
                i += 1;
            }
            proof {
                assert(registers@.take(registers.len() as int) == registers@);
                lemma_bridged_registers_keep_names(registers@);
                lemma_bridged_registers_keep_mapping(registers@);
            }
            Ok(values)
        },
        Err(err) => Err(IndustrialDeviceError::from(err)),
    }
}

/// The bridge keeps failures apart: two failures with the same bridged form
/// are the same failure.
pub proof fn lemma_error_bridge_one_to_one(a: S7Error, b: S7Error)
    requires
        bridged_error(a) == bridged_error(b),
    ensures
        a == b,
{
    assert(bridged_error(a).cause() == a);
    assert(bridged_error(b).cause() == b);
}

/// Every failure is bridged to one kind, fixed by whether it is a missing
/// connection, and is itself the cause of what it is bridged to.
pub proof fn lemma_error_bridge_keeps_cause(err: S7Error)
    ensures
        bridged_error(err).cause() == err,
        bridged_error(err) is DeviceNotConnectedError <==> err is DeviceNotConnectedError,
        bridged_error(err) is RequestError <==> !(err is DeviceNotConnectedError),
{
}

/// The bridge keeps values apart: two register values with the same bridged
/// form are the same value.
pub proof fn lemma_value_bridge_one_to_one(a: RegisterValue, b: RegisterValue)
    requires
        bridged_value(a) == bridged_value(b),
    ensures
        a == b,
{
}

/// The bridge reaches every shared value: each is the bridged form of some
/// register value.
pub proof fn lemma_value_bridge_onto(v: Value)
    ensures
        exists|value: RegisterValue| bridged_value(value) == v,
{
    let witness = match v {
        Value::S16(val) => RegisterValue::S16(val),
        Value::S32(val) => RegisterValue::S32(val),
        Value::Float32(val) => RegisterValue::Float32(val),
        Value::Boolean(val) => RegisterValue::Boolean(val),
    };
    assert(bridged_value(witness) == v);
}

/// Bridging a dump keeps its length and every name in its place, so names
/// that were unique stay unique.
pub proof fn lemma_bridged_registers_keep_names(registers: Seq<(String, RegisterValue)>)
    ensures
        bridged_registers(registers).len() == registers.len(),
        forall|i: int|
            0 <= i < registers.len() ==> (#[trigger] bridged_registers(registers)[i])
                == (registers[i].0, bridged_value(registers[i].1)),
        names_unique(registers) ==> names_unique(bridged_registers(registers)),
{
}

/// A dump with unique names and the mapping it stands for say the same:
/// each entry is in the mapping, and each name of the mapping is the name of
/// an entry.
pub proof fn lemma_dump_map_holds_the_entries<V>(registers: Seq<(String, V)>)
    requires
        names_unique(registers),
    ensures
        forall|i: int|
            0 <= i < registers.len() ==> dump_map(registers).contains_pair(
                (#[trigger] registers[i]).0@,
                registers[i].1,
            ),
        forall|name: Seq<char>| #[trigger]
            dump_map(registers).contains_key(name) ==> exists|i: int|
                0 <= i < registers.len() && (#[trigger] registers[i]).0@ == name,
    decreases registers.len(),
{
    if registers.len() > 0 {
        let front = registers.drop_last();
        let last = registers.last();
        assert(names_unique(front)) by {
            assert forall|i: int, j: int| 0 <= i < j < front.len() implies (#[trigger] front[i]).0@
                != (#[trigger] front[j]).0@ by {
                assert(front[i] == registers[i] && front[j] == registers[j]);
            }
        }
        lemma_dump_map_holds_the_entries(front);
        assert forall|i: int| 0 <= i < registers.len() implies dump_map(registers).contains_pair(
            (#[trigger] registers[i]).0@,
            registers[i].1,
        ) by {
            if i < front.len() {
                assert(front[i] == registers[i]);
                assert(registers[i].0@ != registers[registers.len() - 1].0@);
            }
        }
        assert forall|name: Seq<char>| #[trigger]
            dump_map(registers).contains_key(name) implies exists|i: int|
            0 <= i < registers.len() && (#[trigger] registers[i]).0@ == name by {
            if name == last.0@ {
                assert(registers[registers.len() - 1].0@ == name);
            } else {
                assert(dump_map(front).contains_key(name));
                let i = choose|i: int| 0 <= i < front.len() && (#[trigger] front[i]).0@ == name;
                assert(registers[i] == front[i]);
            }
        }
    }
}

/// Bridging a dump leaves the mapping from name to value as it is, but for
/// each value being taken onto the shared vocabulary.
pub proof fn lemma_bridged_registers_keep_mapping(registers: Seq<(String, RegisterValue)>)
    ensures
        dump_map(bridged_registers(registers)) == dump_map(registers).map_values(
            |value: RegisterValue| bridged_value(value),
        ),
    decreases registers.len(),
{
    let bridge = |value: RegisterValue| bridged_value(value);
    if registers.len() > 0 {
        let front = registers.drop_last();
        let last = registers.last();
        lemma_bridged_registers_keep_mapping(front);
        assert(bridged_registers(registers).drop_last() == bridged_registers(front));
        assert(bridged_registers(registers).last() == (last.0, bridged_value(last.1)));
        assert(dump_map(front).insert(last.0@, last.1).map_values(bridge) == dump_map(
            front,
        ).map_values(bridge).insert(last.0@, bridged_value(last.1)));
    } else {
        assert(dump_map(registers).map_values(bridge) == Map::<Seq<char>, Value>::empty());
    }
}

} // verus!
