//! The actions by which events of the settings window are routed, and the
//! one-byte codes that carry them.

use vstd::prelude::*;

verus! {

/// An action of the settings window.
#[derive(Clone, Copy, Debug, PartialEq, Eq, Structural)]
pub enum SettingsAction {
    AddNetwork,
    RemoveNetwork,
    RegionNLanguage,
    DateNTime,
    MouseSpeed,
    KeyboardLayout,
    Speaker,
    SpeakerVolume,
    Mic,
    MicVolume,
    ShowAddNetworkPopup,
    ShowAddKeyboardPopup,
    ShowConfirmDisplaySettingsPopup,
    ShowErrorPopup,
    OpenWireGuard,
    OpenAdvancedAudioSettingsWidget,
    CheckForUpdateRequest,
    UpdateRequest,
}

/// The number of actions; their codes are the numbers below it.
pub const ACTION_COUNT: u8 = 18;

/// The code of an action: its position in the declaration, from zero.
pub open spec fn code_of(action: SettingsAction) -> u8 {
    match action {
        SettingsAction::AddNetwork => 0,
        SettingsAction::RemoveNetwork => 1,
        SettingsAction::RegionNLanguage => 2,
        SettingsAction::DateNTime => 3,
        SettingsAction::MouseSpeed => 4,
        SettingsAction::KeyboardLayout => 5,
        SettingsAction::Speaker => 6,
        SettingsAction::SpeakerVolume => 7,
        SettingsAction::Mic => 8,
        SettingsAction::MicVolume => 9,
        SettingsAction::ShowAddNetworkPopup => 10,
        SettingsAction::ShowAddKeyboardPopup => 11,
        SettingsAction::ShowConfirmDisplaySettingsPopup => 12,
        SettingsAction::ShowErrorPopup => 13,
        SettingsAction::OpenWireGuard => 14,
        SettingsAction::OpenAdvancedAudioSettingsWidget => 15,
        SettingsAction::CheckForUpdateRequest => 16,
        SettingsAction::UpdateRequest => 17,
    }
}

impl SettingsAction {
    /// The action that `value` is the code of. The value must be the code
    /// of an action.
    pub fn from_value(value: u8) -> (action: SettingsAction)
        requires
            value < ACTION_COUNT,
        ensures
            code_of(action) == value,
    {
        match value {
            0 => SettingsAction::AddNetwork,
            1 => SettingsAction::RemoveNetwork,
            2 => SettingsAction::RegionNLanguage,
            3 => SettingsAction::DateNTime,
            4 => SettingsAction::MouseSpeed,
            5 => SettingsAction::KeyboardLayout,
            6 => SettingsAction::Speaker,
            7 => SettingsAction::SpeakerVolume,
            8 => SettingsAction::Mic,
            9 => SettingsAction::MicVolume,
            10 => SettingsAction::ShowAddNetworkPopup,
            11 => SettingsAction::ShowAddKeyboardPopup,
            12 => SettingsAction::ShowConfirmDisplaySettingsPopup,
            13 => SettingsAction::ShowErrorPopup,
            14 => SettingsAction::OpenWireGuard,
            15 => SettingsAction::OpenAdvancedAudioSettingsWidget,
            16 => SettingsAction::CheckForUpdateRequest,
            17 => SettingsAction::UpdateRequest,
            _ => unreached(),
        }
    }

    /// The code of the action.
    pub fn to_value(&self) -> (value: u8)
        ensures
            value == code_of(*self),
            value < ACTION_COUNT,
    {
        match self {
            SettingsAction::AddNetwork => 0,
            SettingsAction::RemoveNetwork => 1,
            SettingsAction::RegionNLanguage => 2,
            SettingsAction::DateNTime => 3,
            SettingsAction::MouseSpeed => 4,
            SettingsAction::KeyboardLayout => 5,
            SettingsAction::Speaker => 6,
            SettingsAction::SpeakerVolume => 7,
            SettingsAction::Mic => 8,
            SettingsAction::MicVolume => 9,
            SettingsAction::ShowAddNetworkPopup => 10,
            SettingsAction::ShowAddKeyboardPopup => 11,
            SettingsAction::ShowConfirmDisplaySettingsPopup => 12,
            SettingsAction::ShowErrorPopup => 13,
            SettingsAction::OpenWireGuard => 14,
            SettingsAction::OpenAdvancedAudioSettingsWidget => 15,
            SettingsAction::CheckForUpdateRequest => 16,
            SettingsAction::UpdateRequest => 17,
        }
    }
}

/// Two actions with the same code are the same action.
pub proof fn lemma_code_is_injective(a: SettingsAction, b: SettingsAction)
    requires
        code_of(a) == code_of(b),
    ensures
        a == b,
{
}

} // verus!
