use vstd::prelude::*;

verus! {

/// Why an operation on the ledger was refused. A refused operation changes nothing.
#[derive(Clone, Copy, Debug, PartialEq, Eq, Structural)]
pub enum DonationError {
    /// The project's deadline has been reached.
    ProjectExpired,
    /// A record already lives at the address that was to be created.
    AddressAlreadyInUse,
    /// The contributor's balance is smaller than the pledged amount.
    InsufficientFunds,
    /// No bump yields a usable address for the given seeds.
    AddressSpaceExhausted,
    /// The running total (or the money supply) would leave the range of `u64`.
    AmountOverflow,
    /// A text field is longer than the room its record reserves for it.
    FieldTooLong,
    /// No project is stored at the given address.
    ProjectNotFound,
}

impl DonationError {
    /// The text shown to a user for this error.
    pub open spec fn text(self) -> Seq<char> {
        match self {
            DonationError::ProjectExpired => "Project fundraising period has ended."@,
            DonationError::AddressAlreadyInUse => "Address is already in use."@,
            DonationError::InsufficientFunds => "Insufficient funds for the donation."@,
            DonationError::AddressSpaceExhausted => "No viable address for the given seeds."@,
            DonationError::AmountOverflow => "Amount does not fit the ledger's range."@,
            DonationError::FieldTooLong => "A text field exceeds its reserved length."@,
            DonationError::ProjectNotFound => "No project at the given address."@,
        }
    }

    /// The text shown to a user for this error.
    pub fn message(&self) -> (msg: &'static str)
        ensures
            msg@ == self.text(),
    {
        match self {
            DonationError::ProjectExpired => "Project fundraising period has ended.",
            DonationError::AddressAlreadyInUse => "Address is already in use.",
            DonationError::InsufficientFunds => "Insufficient funds for the donation.",
            DonationError::AddressSpaceExhausted => "No viable address for the given seeds.",
            DonationError::AmountOverflow => "Amount does not fit the ledger's range.",
            DonationError::FieldTooLong => "A text field exceeds its reserved length.",
            DonationError::ProjectNotFound => "No project at the given address.",
        }
    }
}

} // verus!
