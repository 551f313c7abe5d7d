//! Numbers of the enumerations on the wire.

use vstd::prelude::*;

use super::{
    KeyAction, NavigationAction, ProtocolErrorCode, TouchAction, Transform, Visibility, WireError,
};

verus! {

impl Transform {
    /// Number of this value on the wire.
    pub open spec fn number(self) -> u8 {
        match self {
            Transform::Normal => 0,
            Transform::Rotate90 => 1,
            Transform::Rotate180 => 2,
            Transform::Rotate270 => 3,
        }
    }

    /// Number of this value on the wire.
    pub fn code(self) -> (code: u8)
        ensures
            code == self.number(),
    {
        match self {
            Transform::Normal => 0,
            Transform::Rotate90 => 1,
            Transform::Rotate180 => 2,
            Transform::Rotate270 => 3,
        }
    }
}

/// Value with the given wire number.
pub open spec fn transform_of(value: u8) -> Result<Transform, WireError> {
    match value {
        0 => Ok(Transform::Normal),
        1 => Ok(Transform::Rotate90),
        2 => Ok(Transform::Rotate180),
        3 => Ok(Transform::Rotate270),
        _ => Err(WireError::InvalidEnum { field: "transform", value: value as u64 }),
    }
}

/// Decode a transform number.
pub fn decode_transform(value: u8) -> (result: Result<Transform, WireError>)
    ensures
        result == transform_of(value),
{
    match value {
        0 => Ok(Transform::Normal),
        1 => Ok(Transform::Rotate90),
        2 => Ok(Transform::Rotate180),
        3 => Ok(Transform::Rotate270),
        _ => Err(WireError::InvalidEnum { field: "transform", value: value as u64 }),
    }
}

impl Visibility {
    /// Number of this value on the wire.
    pub open spec fn number(self) -> u8 {
        match self {
            Visibility::Hidden => 0,
            Visibility::Visible => 1,
            Visibility::Obscured => 2,
        }
    }

    /// Number of this value on the wire.
    pub fn code(self) -> (code: u8)
        ensures
            code == self.number(),
    {
        match self {
            Visibility::Hidden => 0,
            Visibility::Visible => 1,
            Visibility::Obscured => 2,
        }
    }
}

/// Value with the given wire number.
pub open spec fn visibility_of(value: u8) -> Result<Visibility, WireError> {
    match value {
        0 => Ok(Visibility::Hidden),
        1 => Ok(Visibility::Visible),
        2 => Ok(Visibility::Obscured),
        _ => Err(WireError::InvalidEnum { field: "visibility", value: value as u64 }),
    }
}

/// Decode a visibility number.
pub fn decode_visibility(value: u8) -> (result: Result<Visibility, WireError>)
    ensures
        result == visibility_of(value),
{
    match value {
        0 => Ok(Visibility::Hidden),
        1 => Ok(Visibility::Visible),
        2 => Ok(Visibility::Obscured),
        _ => Err(WireError::InvalidEnum { field: "visibility", value: value as u64 }),
    }
}

impl TouchAction {
    /// Number of this value on the wire.
    pub open spec fn number(self) -> u8 {
        match self {
            TouchAction::Down => 0,
            TouchAction::Motion => 1,
            TouchAction::Up => 2,
            TouchAction::Cancel => 3,
        }
    }

    /// Number of this value on the wire.
    pub fn code(self) -> (code: u8)
        ensures
            code == self.number(),
    {
        match self {
            TouchAction::Down => 0,
            TouchAction::Motion => 1,
            TouchAction::Up => 2,
            TouchAction::Cancel => 3,
        }
    }
}

/// Value with the given wire number.
pub open spec fn touch_action_of(value: u8) -> Result<TouchAction, WireError> {
    match value {
        0 => Ok(TouchAction::Down),
        1 => Ok(TouchAction::Motion),
        2 => Ok(TouchAction::Up),
        3 => Ok(TouchAction::Cancel),
        _ => Err(WireError::InvalidEnum { field: "touch action", value: value as u64 }),
    }
}

/// Decode a touch action number.
pub fn decode_touch_action(value: u8) -> (result: Result<TouchAction, WireError>)
    ensures
        result == touch_action_of(value),
{
    match value {
        0 => Ok(TouchAction::Down),
        1 => Ok(TouchAction::Motion),
        2 => Ok(TouchAction::Up),
        3 => Ok(TouchAction::Cancel),
        _ => Err(WireError::InvalidEnum { field: "touch action", value: value as u64 }),
    }
}

impl KeyAction {
    /// Number of this value on the wire.
    pub open spec fn number(self) -> u8 {
        match self {
            KeyAction::Down => 0,
            KeyAction::Up => 1,
        }
    }

    /// Number of this value on the wire.
    pub fn code(self) -> (code: u8)
        ensures
            code == self.number(),
    {
        match self {
            KeyAction::Down => 0,
            KeyAction::Up => 1,
        }
    }
}

/// Value with the given wire number.
pub open spec fn key_action_of(value: u8) -> Result<KeyAction, WireError> {
    match value {
        0 => Ok(KeyAction::Down),
        1 => Ok(KeyAction::Up),
        _ => Err(WireError::InvalidEnum { field: "key action", value: value as u64 }),
    }
}

/// Decode a key action number.
pub fn decode_key_action(value: u8) -> (result: Result<KeyAction, WireError>)
    ensures
        result == key_action_of(value),
{
    match value {
        0 => Ok(KeyAction::Down),
        1 => Ok(KeyAction::Up),
        _ => Err(WireError::InvalidEnum { field: "key action", value: value as u64 }),
    }
}

impl NavigationAction {
    /// Number of this value on the wire.
    pub open spec fn number(self) -> u8 {
        match self {
            NavigationAction::Back => 0,
            NavigationAction::Home => 1,
            NavigationAction::Overview => 2,
        }
    }

    /// Number of this value on the wire.
    pub fn code(self) -> (code: u8)
        ensures
            code == self.number(),
    {
        match self {
            NavigationAction::Back => 0,
            NavigationAction::Home => 1,
            NavigationAction::Overview => 2,
        }
    }
}

/// Value with the given wire number.
pub open spec fn navigation_action_of(value: u8) -> Result<NavigationAction, WireError> {
    match value {
        0 => Ok(NavigationAction::Back),
        1 => Ok(NavigationAction::Home),
        2 => Ok(NavigationAction::Overview),
        _ => Err(WireError::InvalidEnum { field: "navigation action", value: value as u64 }),
    }
}

/// Decode a navigation action number.
pub fn decode_navigation_action(value: u8) -> (result: Result<NavigationAction, WireError>)
    ensures
        result == navigation_action_of(value),
{
    match value {
        0 => Ok(NavigationAction::Back),
        1 => Ok(NavigationAction::Home),
        2 => Ok(NavigationAction::Overview),
        _ => Err(WireError::InvalidEnum { field: "navigation action", value: value as u64 }),
    }
}

impl ProtocolErrorCode {
    /// Number of this value on the wire.
    pub open spec fn number(self) -> u16 {
        match self {
            ProtocolErrorCode::Incompatible => 1,
            ProtocolErrorCode::InvalidMessage => 2,
            ProtocolErrorCode::DuplicateObject => 3,
            ProtocolErrorCode::UnknownObject => 4,
            ProtocolErrorCode::ResourceLimit => 5,
            ProtocolErrorCode::InvalidState => 6,
            ProtocolErrorCode::ProtectedContent => 7,
            ProtocolErrorCode::UnsupportedFormat => 8,
        }
    }

    /// Number of this value on the wire.
    pub fn code(self) -> (code: u16)
        ensures
            code == self.number(),
    {
        match self {
            ProtocolErrorCode::Incompatible => 1,
            ProtocolErrorCode::InvalidMessage => 2,
            ProtocolErrorCode::DuplicateObject => 3,
            ProtocolErrorCode::UnknownObject => 4,
            ProtocolErrorCode::ResourceLimit => 5,
            ProtocolErrorCode::InvalidState => 6,
            ProtocolErrorCode::ProtectedContent => 7,
            ProtocolErrorCode::UnsupportedFormat => 8,
        }
    }
}

/// Value with the given wire number.
pub open spec fn error_code_of(value: u16) -> Result<ProtocolErrorCode, WireError> {
    match value {
        1 => Ok(ProtocolErrorCode::Incompatible),
        2 => Ok(ProtocolErrorCode::InvalidMessage),
        3 => Ok(ProtocolErrorCode::DuplicateObject),
        4 => Ok(ProtocolErrorCode::UnknownObject),
        5 => Ok(ProtocolErrorCode::ResourceLimit),
        6 => Ok(ProtocolErrorCode::InvalidState),
        7 => Ok(ProtocolErrorCode::ProtectedContent),
        8 => Ok(ProtocolErrorCode::UnsupportedFormat),
        _ => Err(WireError::InvalidEnum { field: "protocol error", value: value as u64 }),
    }
}

/// Decode a protocol error number.
pub fn decode_error_code(value: u16) -> (result: Result<ProtocolErrorCode, WireError>)
    ensures
        result == error_code_of(value),
{
    match value {
        1 => Ok(ProtocolErrorCode::Incompatible),
        2 => Ok(ProtocolErrorCode::InvalidMessage),
        3 => Ok(ProtocolErrorCode::DuplicateObject),
        4 => Ok(ProtocolErrorCode::UnknownObject),
        5 => Ok(ProtocolErrorCode::ResourceLimit),
        6 => Ok(ProtocolErrorCode::InvalidState),
        7 => Ok(ProtocolErrorCode::ProtectedContent),
        8 => Ok(ProtocolErrorCode::UnsupportedFormat),
        _ => Err(WireError::InvalidEnum { field: "protocol error", value: value as u64 }),
    }
}

/// Every enumeration survives the wire, and only its own numbers are accepted.
pub proof fn law_enumerations_round_trip()
    ensures
        forall|value: Transform| #[trigger] transform_of(value.number()) == Ok::<Transform, WireError>(value),
        forall|number: u8|
            (#[trigger] transform_of(number)) is Ok ==> transform_of(number)->Ok_0.number() == number,
        forall|value: Visibility| #[trigger] visibility_of(value.number()) == Ok::<Visibility, WireError>(value),
        forall|number: u8|
            (#[trigger] visibility_of(number)) is Ok ==> visibility_of(number)->Ok_0.number() == number,
        forall|value: TouchAction| #[trigger] touch_action_of(value.number()) == Ok::<TouchAction, WireError>(value),
        forall|number: u8|
            (#[trigger] touch_action_of(number)) is Ok ==> touch_action_of(number)->Ok_0.number() == number,
        forall|value: KeyAction| #[trigger] key_action_of(value.number()) == Ok::<KeyAction, WireError>(value),
        forall|number: u8|
            (#[trigger] key_action_of(number)) is Ok ==> key_action_of(number)->Ok_0.number() == number,
        forall|value: NavigationAction| #[trigger] navigation_action_of(value.number()) == Ok::<NavigationAction, WireError>(value),
        forall|number: u8|
            (#[trigger] navigation_action_of(number)) is Ok ==> navigation_action_of(number)->Ok_0.number() == number,
        forall|value: ProtocolErrorCode| #[trigger] error_code_of(value.number()) == Ok::<ProtocolErrorCode, WireError>(value),
        forall|number: u16|
            (#[trigger] error_code_of(number)) is Ok ==> error_code_of(number)->Ok_0.number() == number,
{
}

/// Law: the numbers of the enumerations on the wire.
pub proof fn law_enumerations_have_fixed_numbers()
    ensures
        Transform::Normal.number() == 0,
        Transform::Rotate90.number() == 1,
        Transform::Rotate180.number() == 2,
        Transform::Rotate270.number() == 3,
        Visibility::Hidden.number() == 0,
        Visibility::Visible.number() == 1,
        Visibility::Obscured.number() == 2,
        TouchAction::Down.number() == 0,
        TouchAction::Motion.number() == 1,
        TouchAction::Up.number() == 2,
        TouchAction::Cancel.number() == 3,
        KeyAction::Down.number() == 0,
        KeyAction::Up.number() == 1,
        NavigationAction::Back.number() == 0,
        NavigationAction::Home.number() == 1,
        NavigationAction::Overview.number() == 2,
        ProtocolErrorCode::Incompatible.number() == 1,
        ProtocolErrorCode::InvalidMessage.number() == 2,
        ProtocolErrorCode::DuplicateObject.number() == 3,
        ProtocolErrorCode::UnknownObject.number() == 4,
        ProtocolErrorCode::ResourceLimit.number() == 5,
        ProtocolErrorCode::InvalidState.number() == 6,
        ProtocolErrorCode::ProtectedContent.number() == 7,
        ProtocolErrorCode::UnsupportedFormat.number() == 8,
{
}

/// Law: a number outside an enumeration is refused by its field's name.
pub proof fn law_other_numbers_are_refused(value: u8, code: u16)
    ensures
        value > 3 ==> transform_of(value) == Err::<Transform, WireError>(
            WireError::InvalidEnum { field: "transform", value: value as u64 },
        ),
        value > 2 ==> visibility_of(value) == Err::<Visibility, WireError>(
            WireError::InvalidEnum { field: "visibility", value: value as u64 },
        ),
        value > 3 ==> touch_action_of(value) == Err::<TouchAction, WireError>(
            WireError::InvalidEnum { field: "touch action", value: value as u64 },
        ),
        value > 1 ==> key_action_of(value) == Err::<KeyAction, WireError>(
            WireError::InvalidEnum { field: "key action", value: value as u64 },
        ),
        value > 2 ==> navigation_action_of(value) == Err::<NavigationAction, WireError>(
            WireError::InvalidEnum { field: "navigation action", value: value as u64 },
        ),
        code == 0 || code > 8 ==> error_code_of(code) == Err::<ProtocolErrorCode, WireError>(
            WireError::InvalidEnum { field: "protocol error", value: code as u64 },
        ),
{
}

} // verus!
