//! Residents and their payments.
use crate::clock::{utc_now, Timestamp};
use vstd::prelude::*;

verus! {

/// A registered resident. The signing key is kept as base64 text and does
/// not change once the resident is registered.
#[derive(Debug, Clone)]
pub struct Resident {
    /// The resident's identifier, unique in the registry.
    pub id: u32,
    /// The name shown for the resident.
    pub name: String,
    /// A reference to the resident's wallet, kept as given.
    pub wallet: String,
    /// The resident's 32-byte signing key, in base64.
    pub private_key: String,
}

/// What a [`Resident`] holds, as mathematical values.
pub struct ResidentView {
    pub id: u32,
    pub name: Seq<char>,
    pub wallet: Seq<char>,
    pub private_key: Seq<char>,
}

impl View for Resident {
    type V = ResidentView;

    open spec fn view(&self) -> ResidentView {
        ResidentView {
            id: self.id,
            name: self.name@,
            wallet: self.wallet@,
            private_key: self.private_key@,
        }
    }
}

/// One accepted charge. A payment is never changed after it is made.
#[derive(Debug, Clone, Copy, PartialEq, Eq, Structural)]
pub struct Payment {
    /// The resident who was charged.
    pub resident_id: u32,
    /// The amount, in the smallest currency unit.
    pub amount_copt: u64,
    /// When the payment was made.
    pub timestamp: Timestamp,
}

impl Payment {
    /// The payment of `amount` by resident `resident_id`, made at
    /// `timestamp`.
    pub fn at(resident_id: u32, amount: u64, timestamp: Timestamp) -> (payment: Payment)
        ensures
            payment == (Payment { resident_id, amount_copt: amount, timestamp }),
    {
        Payment { resident_id, amount_copt: amount, timestamp }
    }

    /// The payment of `amount` by resident `resident_id`, made now.
    pub fn new(resident_id: u32, amount: u64) -> (payment: Payment)
        ensures
            payment.resident_id == resident_id,
            payment.amount_copt == amount,
    {
        Payment::at(resident_id, amount, utc_now())
    }
}

} // verus!
