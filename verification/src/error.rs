use vstd::prelude::*;

verus! {

/// What can go wrong between a caller and the modem.
#[derive(Debug, Clone, Copy, PartialEq, Eq, Structural)]
pub enum ModemError {
    /// Hex text of odd length, or with a character that is no hex digit.
    Decode,
    /// A response line that does not hold exactly four comma-separated fields.
    MalformedLine,
    /// A numeric field that is not numeric, or does not fit its width.
    InvalidField,
    /// A response line whose payload field is not valid hex text.
    InvalidPayload,
    /// The declared payload length differs from the decoded payload's length.
    LengthMismatch,
    /// A configuration code outside `0..=3`.
    UnknownConfigCode,
    /// The transport failed.
    Io,
}

impl ModemError {
    /// The text that says in words what went wrong.
    pub open spec fn spec_message(self) -> Seq<char> {
        match self {
            ModemError::Decode => "hex text of odd length or with a character that is no hex digit!"@,
            ModemError::MalformedLine => "output from modem has unexpected length!"@,
            ModemError::InvalidField => "numeric field of modem output is not a number in range!"@,
            ModemError::InvalidPayload => "payload of modem output is not hex text!"@,
            ModemError::LengthMismatch => "payload length not matching actual payload!"@,
            ModemError::UnknownConfigCode => "Unknown modem config code!"@,
            ModemError::Io => "could not talk to modem!"@,
        }
    }

    /// Says in words what went wrong.
    pub fn message(&self) -> (text: &'static str)
        ensures
            text@ == self.spec_message(),
    {
        match self {
            ModemError::Decode => "hex text of odd length or with a character that is no hex digit!",
            ModemError::MalformedLine => "output from modem has unexpected length!",
            ModemError::InvalidField => "numeric field of modem output is not a number in range!",
            ModemError::InvalidPayload => "payload of modem output is not hex text!",
            ModemError::LengthMismatch => "payload length not matching actual payload!",
            ModemError::UnknownConfigCode => "Unknown modem config code!",
            ModemError::Io => "could not talk to modem!",
        }
    }
}

} // verus!
