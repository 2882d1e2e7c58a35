//! The user's settings: five switches, kept as one byte each.

use crate::formatter::FormatConfig;
use vstd::prelude::*;

verus! {

/// How many bytes the settings take where they are stored.
pub const SETTINGS_STORAGE_SIZE: usize = 10;

/// How many settings the user can change.
pub const EXPOSED_SETTINGS_COUNT: usize = 5;

/// A setting that the user can switch on and off.
#[derive(Debug, Clone, Copy, PartialEq, Eq)]
pub enum SettingId {
    BlindSigning,
    TransactionSource,
    SequenceAndNonce,
    Precondition,
    NestedAuthorization,
}

impl SettingId {
    /// The place of the setting's byte.
    pub open spec fn index_of(self) -> int {
        match self {
            SettingId::BlindSigning => 0,
            SettingId::TransactionSource => 1,
            SettingId::SequenceAndNonce => 2,
            SettingId::Precondition => 3,
            SettingId::NestedAuthorization => 4,
        }
    }

    /// The place of the setting's byte.
    pub fn as_index(self) -> (i: usize)
        ensures
            i == self.index_of(),
    {
        match self {
            SettingId::BlindSigning => 0,
            SettingId::TransactionSource => 1,
            SettingId::SequenceAndNonce => 2,
            SettingId::Precondition => 3,
            SettingId::NestedAuthorization => 4,
        }
    }

    /// The name under which the setting is shown.
    pub open spec fn name_of(self) -> Seq<char> {
        match self {
            SettingId::BlindSigning => "Blind Signing"@,
            SettingId::TransactionSource => "Transaction Source"@,
            SettingId::SequenceAndNonce => "Sequence & Nonce"@,
            SettingId::Precondition => "Precondition"@,
            SettingId::NestedAuthorization => "Nested Authorization"@,
        }
    }

    /// What is said of the setting where it is shown.
    pub open spec fn description_of(self) -> Seq<char> {
        match self {
            SettingId::BlindSigning => "Allow blind signing"@,
            SettingId::TransactionSource => "Always display transaction source"@,
            SettingId::SequenceAndNonce => "Allow display of transaction sequence and nonce"@,
            SettingId::Precondition => "Allow display of transaction precondition"@,
            SettingId::NestedAuthorization => "Allow display of nested authorizations"@,
        }
    }

    /// The name and the description under which the setting is shown.
    pub fn setting_info(self) -> (r: (&'static str, &'static str))
        ensures
            r.0@ == self.name_of(),
            r.1@ == self.description_of(),
    {
        match self {
            SettingId::BlindSigning => ("Blind Signing", "Allow blind signing"),
            SettingId::TransactionSource => (
                "Transaction Source",
                "Always display transaction source",
            ),
            SettingId::SequenceAndNonce => (
                "Sequence & Nonce",
                "Allow display of transaction sequence and nonce",
            ),
            SettingId::Precondition => (
                "Precondition",
                "Allow display of transaction precondition",
            ),
            SettingId::NestedAuthorization => (
                "Nested Authorization",
                "Allow display of nested authorizations",
            ),
        }
    }

    /// The setting whose byte is at place `i`.
    pub open spec fn at(i: int) -> SettingId {
        if i == 0 {
            SettingId::BlindSigning
        } else if i == 1 {
            SettingId::TransactionSource
        } else if i == 2 {
            SettingId::SequenceAndNonce
        } else if i == 3 {
            SettingId::Precondition
        } else {
            SettingId::NestedAuthorization
        }
    }
}

/// The settings as they are stored: a byte for each, zero for off.
#[derive(Debug, Clone, Copy, PartialEq, Eq)]
pub struct Settings {
    pub data: [u8; 10],
}

impl Default for Settings {
    /// The settings of a new device: only nested authorizations are shown.
    fn default() -> (s: Self)
        ensures
            s.data@ == seq![0u8, 0u8, 0u8, 0u8, 1u8, 0u8, 0u8, 0u8, 0u8, 0u8],
    {
        let data: [u8; 10] = [0, 0, 0, 0, 1, 0, 0, 0, 0, 0];
        proof {
            assert(data@ =~= seq![0u8, 0u8, 0u8, 0u8, 1u8, 0u8, 0u8, 0u8, 0u8, 0u8]);
        }
        Settings { data }
    }
}

impl Settings {
    /// Whether a setting is on.
    pub open spec fn is_on(&self, setting: SettingId) -> bool {
        self.data@[setting.index_of()] != 0
    }

    /// Whether a setting is on.
    pub fn get_setting(&self, setting: SettingId) -> (b: bool)
        ensures
            b == self.is_on(setting),
    {
        self.data[setting.as_index()] != 0
    }

    /// Switches a setting on or off.
    pub fn set_setting(&mut self, setting: SettingId, value: bool)
        ensures
            final(self).data@ == old(self).data@.update(
                setting.index_of(),
                if value {
                    1u8
                } else {
                    0u8
                },
            ),
    {
        let byte: u8 = if value {
            1
        } else {
            0
        };
        let index = setting.as_index();
        self.data[index] = byte;
    }

    /// Whether messages that cannot be shown in full may be signed.
    pub fn is_blind_signing_enabled(&self) -> (b: bool)
        ensures
            b == self.is_on(SettingId::BlindSigning),
    {
        self.get_setting(SettingId::BlindSigning)
    }

    /// Whether a transaction's source is shown where it is the signer.
    pub fn is_show_transaction_source_if_matches_signer(&self) -> (b: bool)
        ensures
            b == self.is_on(SettingId::TransactionSource),
    {
        self.get_setting(SettingId::TransactionSource)
    }

    /// Whether sequence numbers and nonces are shown.
    pub fn is_show_sequence_and_nonce_enabled(&self) -> (b: bool)
        ensures
            b == self.is_on(SettingId::SequenceAndNonce),
    {
        self.get_setting(SettingId::SequenceAndNonce)
    }

    /// Whether a transaction's preconditions are shown.
    pub fn is_show_precondition_enabled(&self) -> (b: bool)
        ensures
            b == self.is_on(SettingId::Precondition),
    {
        self.get_setting(SettingId::Precondition)
    }

    /// Whether the invocations under an authorized invocation are shown.
    pub fn is_show_nested_authorization_enabled(&self) -> (b: bool)
        ensures
            b == self.is_on(SettingId::NestedAuthorization),
    {
        self.get_setting(SettingId::NestedAuthorization)
    }

    /// What the settings say of how a message is shown.
    pub fn to_format_config(self) -> (c: FormatConfig)
        ensures
            c.show_sequence_and_nonce == self.is_on(SettingId::SequenceAndNonce),
            c.show_preconditions == self.is_on(SettingId::Precondition),
            c.show_nested_authorization == self.is_on(SettingId::NestedAuthorization),
            c.show_tx_source_if_matches_signer == self.is_on(SettingId::TransactionSource),
    {
        FormatConfig {
            show_sequence_and_nonce: self.is_show_sequence_and_nonce_enabled(),
            show_preconditions: self.is_show_precondition_enabled(),
            show_nested_authorization: self.is_show_nested_authorization_enabled(),
            show_tx_source_if_matches_signer: self.is_show_transaction_source_if_matches_signer(),
        }
    }

    /// The name and the description of each setting, in the order of
    /// their places.
    pub fn get_all_settings_info() -> (r: [[&'static str; 2]; 5])
        ensures
            forall|i: int|
                0 <= i < 5 ==> (#[trigger] r@[i])@[0]@ == SettingId::at(i).name_of() && r@[i]@[1]@
                    == SettingId::at(i).description_of(),
    {
        let a = SettingId::BlindSigning.setting_info();
        let b = SettingId::TransactionSource.setting_info();
        let c = SettingId::SequenceAndNonce.setting_info();
        let d = SettingId::Precondition.setting_info();
        let e = SettingId::NestedAuthorization.setting_info();
        [[a.0, a.1], [b.0, b.1], [c.0, c.1], [d.0, d.1], [e.0, e.1]]
    }
}

} // verus!
