//! Error type of the library and the text that each error displays.

use vstd::prelude::*;

use crate::text::joined;

verus! {

/// Errors of the HID devices, the agent and the platform readers. The
/// errors of the input/output layer (`std::io::Error`, JSON decoding) arise
/// outside the library and are carried by the application's error type.
#[derive(Debug)]
pub enum Error {
    DeviceNotCreated,
    DeviceAlreadyExists,
    CreateFailed(String),
    SendFailed(String),
    PlatformNotSupported(String),
    InvalidKey(String),
    InvalidAction(String),
    QueryFailed(String),
    MoveFailed(String),
    FailsafeTriggered(String),
    ScreenshotFailed(String),
    AccessibilityFailed(String),
}

/// The text that an error displays.
pub open spec fn error_text(e: Error) -> Seq<char> {
    match e {
        Error::DeviceNotCreated => "Device not created"@,
        Error::DeviceAlreadyExists => "Device already exists"@,
        Error::CreateFailed(s) => "Failed to create device: "@ + s@,
        Error::SendFailed(s) => "Failed to send report: "@ + s@,
        Error::PlatformNotSupported(s) => "Platform not supported: "@ + s@,
        Error::InvalidKey(s) => "Invalid key: "@ + s@,
        Error::InvalidAction(s) => "Invalid action: "@ + s@,
        Error::QueryFailed(s) => "Query failed: "@ + s@,
        Error::MoveFailed(s) => "Move failed: "@ + s@,
        Error::FailsafeTriggered(s) => "Failsafe triggered: "@ + s@,
        Error::ScreenshotFailed(s) => "Screenshot failed: "@ + s@,
        Error::AccessibilityFailed(s) => "Accessibility failed: "@ + s@,
    }
}

impl Error {
    /// The text the error displays.
    pub fn message(&self) -> (r: String)
        ensures
            r@ == error_text(*self),
    {
        match self {
            Error::DeviceNotCreated => "Device not created".to_owned(),
            Error::DeviceAlreadyExists => "Device already exists".to_owned(),
            Error::CreateFailed(s) => joined("Failed to create device: ", s.as_str()),
            Error::SendFailed(s) => joined("Failed to send report: ", s.as_str()),
            Error::PlatformNotSupported(s) => joined("Platform not supported: ", s.as_str()),
            Error::InvalidKey(s) => joined("Invalid key: ", s.as_str()),
            Error::InvalidAction(s) => joined("Invalid action: ", s.as_str()),
            Error::QueryFailed(s) => joined("Query failed: ", s.as_str()),
            Error::MoveFailed(s) => joined("Move failed: ", s.as_str()),
            Error::FailsafeTriggered(s) => joined("Failsafe triggered: ", s.as_str()),
            Error::ScreenshotFailed(s) => joined("Screenshot failed: ", s.as_str()),
            Error::AccessibilityFailed(s) => joined("Accessibility failed: ", s.as_str()),
        }
    }
}

} // verus!
