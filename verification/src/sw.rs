//! The status words that the application answers with.

use vstd::prelude::*;

verus! {

/// A status word.
#[derive(Clone, Copy, PartialEq, Eq, Debug)]
pub enum AppSW {
    Deny,
    KeyDeriveFail,
    RequestDataTooLarge,
    DataParsingFail,
    DataHashFail,
    DataSignFail,
    SwapCheckFail,
    DataFormattingFail,
    WrongApduLength,
    WrongP1P2,
    InsNotSupported,
    BlindSigningModeNotEnabled,
    Success,
}

impl AppSW {
    /// The number that is sent for a status word.
    pub open spec fn code_of(self) -> u16 {
        match self {
            AppSW::Deny => 0x6985,
            AppSW::KeyDeriveFail => 0xB001,
            AppSW::RequestDataTooLarge => 0xB004,
            AppSW::DataParsingFail => 0xB005,
            AppSW::DataHashFail => 0xB006,
            AppSW::DataSignFail => 0xB008,
            AppSW::SwapCheckFail => 0xB009,
            AppSW::DataFormattingFail => 0x6125,
            AppSW::WrongApduLength => 0x6A87,
            AppSW::WrongP1P2 => 0x6B00,
            AppSW::InsNotSupported => 0x6D00,
            AppSW::BlindSigningModeNotEnabled => 0x6C66,
            AppSW::Success => 0x9000,
        }
    }

    /// The number that is sent for a status word.
    pub fn code(&self) -> (c: u16)
        ensures
            c == self.code_of(),
    {
        match self {
            AppSW::Deny => 0x6985,
            AppSW::KeyDeriveFail => 0xB001,
            AppSW::RequestDataTooLarge => 0xB004,
            AppSW::DataParsingFail => 0xB005,
            AppSW::DataHashFail => 0xB006,
            AppSW::DataSignFail => 0xB008,
            AppSW::SwapCheckFail => 0xB009,
            AppSW::DataFormattingFail => 0x6125,
            AppSW::WrongApduLength => 0x6A87,
            AppSW::WrongP1P2 => 0x6B00,
            AppSW::InsNotSupported => 0x6D00,
            AppSW::BlindSigningModeNotEnabled => 0x6C66,
            AppSW::Success => 0x9000,
        }
    }
}

} // verus!
