//! The failures of a scan.

use vstd::prelude::*;

verus! {

/// What can go wrong.
#[derive(Clone, Copy, Debug, PartialEq, Eq, Structural)]
pub enum InventoryError {
    /// The configuration is missing or cannot be used.
    Config,
    /// The cache root has no parent directory.
    Path,
    /// No credentials could be had for one account.
    Auth,
    /// One call to the provider failed or ran out of time.
    Provider,
    /// The cache was asked for and holds no data.
    NoCacheData,
    /// The output could not be written as JSON.
    Serialization,
}

impl InventoryError {
    /// Whether this failure ends the run. A failure of one account or of one
    /// call only empties that branch of the scan; every other failure ends
    /// the run without output.
    pub open spec fn fatal(self) -> bool {
        !(self is Auth || self is Provider)
    }

    /// Whether this failure ends the run.
    pub fn is_fatal(&self) -> (r: bool)
        ensures
            r == self.fatal(),
    {
        match self {
            InventoryError::Auth => false,
            InventoryError::Provider => false,
            _ => true,
        }
    }

    /// The text shown for this failure.
    pub open spec fn message_text(self) -> Seq<char> {
        match self {
            InventoryError::Config => "The configuration is missing or invalid!"@,
            InventoryError::Path => "Can't find root path!"@,
            InventoryError::Auth => "Failed to get credentials for an account!"@,
            InventoryError::Provider => "Failed to describe instances!"@,
            InventoryError::NoCacheData => "No cache data!"@,
            InventoryError::Serialization => "Failed to render the inventory as JSON!"@,
        }
    }

    /// A message for the user.
    pub fn message(&self) -> (r: String)
        ensures
            r@ == self.message_text(),
    {
        match self {
            InventoryError::Config => "The configuration is missing or invalid!".to_owned(),
            InventoryError::Path => "Can't find root path!".to_owned(),
            InventoryError::Auth => "Failed to get credentials for an account!".to_owned(),
            InventoryError::Provider => "Failed to describe instances!".to_owned(),
            InventoryError::NoCacheData => "No cache data!".to_owned(),
            InventoryError::Serialization => "Failed to render the inventory as JSON!".to_owned(),
        }
    }
}

} // verus!
