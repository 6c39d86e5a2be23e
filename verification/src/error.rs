//! What can go wrong, and what is said about it.

use vstd::prelude::*;

verus! {

/// Why a text is not a number.
#[derive(Clone, Copy, Debug, PartialEq, Eq, Structural)]
pub enum NumberError {
    Empty,
    InvalidDigit,
    TooLarge,
}

/// A value that a cached lamp mode needs.
#[derive(Clone, Copy, Debug, PartialEq, Eq, Structural)]
pub enum CachedField {
    Cw,
    Red,
    Green,
    Blue,
    Warm,
    Cool,
}

/// A failure of one of the library's functions, or a decision that a run failed.
#[derive(Debug, PartialEq, Eq)]
pub enum LampError {
    HomeNotSet,
    BadNumber { key: String, cause: NumberError },
    OddHexLength,
    BadHexByte { piece: String },
    RgbLength,
    MissingCommand,
    CachedValueMissing { field: CachedField },
    NoCachedMode,
    NoAttempts,
    LampNotFound,
    NoAdapter,
    NoWritableCharacteristic,
    CharacteristicNotFound { uuid: String },
    NoNotifyCharacteristics,
    DeviceObjectMissing,
    DeviceInterfaceMissing,
    ConnectFailed { reason: String },
    ServicesNotResolved,
    ClockBeforeEpoch,
}

/// A `LampError` with its strings as character sequences.
#[verifier::ext_equal]
pub ghost enum Failure {
    HomeNotSet,
    BadNumber { key: Seq<char>, cause: NumberError },
    OddHexLength,
    BadHexByte { piece: Seq<char> },
    RgbLength,
    MissingCommand,
    CachedValueMissing { field: CachedField },
    NoCachedMode,
    NoAttempts,
    LampNotFound,
    NoAdapter,
    NoWritableCharacteristic,
    CharacteristicNotFound { uuid: Seq<char> },
    NoNotifyCharacteristics,
    DeviceObjectMissing,
    DeviceInterfaceMissing,
    ConnectFailed { reason: Seq<char> },
    ServicesNotResolved,
    ClockBeforeEpoch,
}

impl View for LampError {
    type V = Failure;

    open spec fn view(&self) -> Failure {
        match *self {
            LampError::HomeNotSet => Failure::HomeNotSet,
            LampError::BadNumber { key, cause } => Failure::BadNumber { key: key@, cause },
            LampError::OddHexLength => Failure::OddHexLength,
            LampError::BadHexByte { piece } => Failure::BadHexByte { piece: piece@ },
            LampError::RgbLength => Failure::RgbLength,
            LampError::MissingCommand => Failure::MissingCommand,
            LampError::CachedValueMissing { field } => Failure::CachedValueMissing { field },
            LampError::NoCachedMode => Failure::NoCachedMode,
            LampError::NoAttempts => Failure::NoAttempts,
            LampError::LampNotFound => Failure::LampNotFound,
            LampError::NoAdapter => Failure::NoAdapter,
            LampError::NoWritableCharacteristic => Failure::NoWritableCharacteristic,
            LampError::CharacteristicNotFound { uuid } => Failure::CharacteristicNotFound {
                uuid: uuid@,
            },
            LampError::NoNotifyCharacteristics => Failure::NoNotifyCharacteristics,
            LampError::DeviceObjectMissing => Failure::DeviceObjectMissing,
            LampError::DeviceInterfaceMissing => Failure::DeviceInterfaceMissing,
            LampError::ConnectFailed { reason } => Failure::ConnectFailed { reason: reason@ },
            LampError::ServicesNotResolved => Failure::ServicesNotResolved,
            LampError::ClockBeforeEpoch => Failure::ClockBeforeEpoch,
        }
    }
}

/// The mode that needs the value.
pub open spec fn field_mode(field: CachedField) -> Seq<char> {
    match field {
        CachedField::Cw => "cw"@,
        CachedField::Red | CachedField::Green | CachedField::Blue => "rgb"@,
        CachedField::Warm | CachedField::Cool => "temp"@,
    }
}

/// The name of the value.
pub open spec fn field_name(field: CachedField) -> Seq<char> {
    match field {
        CachedField::Cw => "CW"@,
        CachedField::Red => "RED"@,
        CachedField::Green => "GREEN"@,
        CachedField::Blue => "BLUE"@,
        CachedField::Warm => "WARM"@,
        CachedField::Cool => "COOL"@,
    }
}

/// The sentence that describes a failure.
pub open spec fn failure_message(failure: Failure) -> Seq<char> {
    match failure {
        Failure::HomeNotSet => "HOME is not set"@,
        Failure::BadNumber { key, .. } => "parse "@ + key,
        Failure::OddHexLength => "hex string must contain an even number of digits"@,
        Failure::BadHexByte { piece } => "parse hex byte "@ + piece,
        Failure::RgbLength =>
            "rgb --value must be exactly 6 hex digits, like ff8800 or #ff8800"@,
        Failure::MissingCommand =>
            "missing command; use --brightness <0-100> for brightness-only adjustment"@,
        Failure::CachedValueMissing { field } => "cached "@ + field_mode(field)
            + " mode is missing "@ + field_name(field) + " value"@,
        Failure::NoCachedMode =>
            "brightness-only adjustment needs cached rgb, cw, or temp state; run rgb/cw/temp once first"@,
        Failure::NoAttempts => "no attempts ran"@,
        Failure::LampNotFound => "lamp not found during BLE scan"@,
        Failure::NoAdapter => "no BlueZ adapter found"@,
        Failure::NoWritableCharacteristic => "no writable GATT characteristic found"@,
        Failure::CharacteristicNotFound { uuid } => "GATT characteristic not found for UUID "@
            + uuid,
        Failure::NoNotifyCharacteristics => "no notify or indicate GATT characteristics found"@,
        Failure::DeviceObjectMissing => "device object missing from BlueZ"@,
        Failure::DeviceInterfaceMissing => "Device1 interface missing from BlueZ object"@,
        Failure::ConnectFailed { reason } => "connect failed: "@ + reason,
        Failure::ServicesNotResolved => "connected lamp did not expose GATT services"@,
        Failure::ClockBeforeEpoch => "system clock is before Unix epoch"@,
    }
}

/// The sentence that describes why a text is not a number.
pub open spec fn number_error_message(error: NumberError) -> Seq<char> {
    match error {
        NumberError::Empty => "cannot parse integer from empty string"@,
        NumberError::InvalidDigit => "invalid digit found in string"@,
        NumberError::TooLarge => "number too large to fit in target type"@,
    }
}

/// The underlying cause that is reported after the sentence, if there is one.
pub open spec fn failure_cause(failure: Failure) -> Option<Seq<char>> {
    match failure {
        Failure::BadNumber { cause, .. } => Some(number_error_message(cause)),
        Failure::BadHexByte { .. } => Some(number_error_message(NumberError::InvalidDigit)),
        _ => None,
    }
}

/// Two texts, one after the other.
pub fn concat2(a: &str, b: &str) -> (r: String)
    ensures
        r@ == a@ + b@,
{
    a.to_owned().concat(b)
}

impl CachedField {
    fn mode(self) -> (r: &'static str)
        ensures
            r@ == field_mode(self),
    {
        match self {
            CachedField::Cw => "cw",
            CachedField::Red | CachedField::Green | CachedField::Blue => "rgb",
            CachedField::Warm | CachedField::Cool => "temp",
        }
    }

    fn name(self) -> (r: &'static str)
        ensures
            r@ == field_name(self),
    {
        match self {
            CachedField::Cw => "CW",
            CachedField::Red => "RED",
            CachedField::Green => "GREEN",
            CachedField::Blue => "BLUE",
            CachedField::Warm => "WARM",
            CachedField::Cool => "COOL",
        }
    }
}

impl NumberError {
    /// The sentence that describes why a text is not a number.
    pub fn message(self) -> (r: &'static str)
        ensures
            r@ == number_error_message(self),
    {
        match self {
            NumberError::Empty => "cannot parse integer from empty string",
            NumberError::InvalidDigit => "invalid digit found in string",
            NumberError::TooLarge => "number too large to fit in target type",
        }
    }
}

impl LampError {
    /// The sentence that describes the failure.
    pub fn message(&self) -> (r: String)
        ensures
            r@ == failure_message(self@),
    {
        match self {
            LampError::HomeNotSet => "HOME is not set".to_owned(),
            LampError::BadNumber { key, .. } => concat2("parse ", key.as_str()),
            LampError::OddHexLength => "hex string must contain an even number of digits".to_owned(),
            LampError::BadHexByte { piece } => concat2("parse hex byte ", piece.as_str()),
            LampError::RgbLength =>
                "rgb --value must be exactly 6 hex digits, like ff8800 or #ff8800".to_owned(),
            LampError::MissingCommand =>
                "missing command; use --brightness <0-100> for brightness-only adjustment".to_owned(),
            LampError::CachedValueMissing { field } => {
                let mut out = concat2("cached ", field.mode());
                out.append(" mode is missing ");
                out.append(field.name());
                out.append(" value");
                out
            },
            LampError::NoCachedMode =>
                "brightness-only adjustment needs cached rgb, cw, or temp state; run rgb/cw/temp once first".to_owned(),
            LampError::NoAttempts => "no attempts ran".to_owned(),
            LampError::LampNotFound => "lamp not found during BLE scan".to_owned(),
            LampError::NoAdapter => "no BlueZ adapter found".to_owned(),
            LampError::NoWritableCharacteristic =>
                "no writable GATT characteristic found".to_owned(),
            LampError::CharacteristicNotFound { uuid } => concat2(
                "GATT characteristic not found for UUID ",
                uuid.as_str(),
            ),
            LampError::NoNotifyCharacteristics =>
                "no notify or indicate GATT characteristics found".to_owned(),
            LampError::DeviceObjectMissing => "device object missing from BlueZ".to_owned(),
            LampError::DeviceInterfaceMissing =>
                "Device1 interface missing from BlueZ object".to_owned(),
            LampError::ConnectFailed { reason } => concat2("connect failed: ", reason.as_str()),
            LampError::ServicesNotResolved =>
                "connected lamp did not expose GATT services".to_owned(),
            LampError::ClockBeforeEpoch => "system clock is before Unix epoch".to_owned(),
        }
    }

    /// The underlying cause that is reported after the sentence, if there is one.
    pub fn cause(&self) -> (r: Option<&'static str>)
        ensures
            match (r, failure_cause(self@)) {
                (Some(text), Some(expected)) => text@ == expected,
                (None, None) => true,
                _ => false,
            },
    {
        match self {
            LampError::BadNumber { cause, .. } => Some(cause.message()),
            LampError::BadHexByte { .. } => Some(NumberError::InvalidDigit.message()),
            _ => None,
        }
    }
}

} // verus!
