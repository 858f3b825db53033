//! The optional fee attached to a schema.

use vstd::prelude::*;
use crate::identity::Identity;

verus! {

/// A fee for using a schema. It has no life of its own: it exists only
/// inside a schema record.
#[derive(Clone, Copy, Debug, PartialEq, Eq)]
pub struct Levy {
    /// The quantity to pay.
    pub amount: u64,
    /// The asset in which `amount` is counted; `None` is the platform's
    /// native unit.
    pub asset: Option<Identity>,
    /// Who receives the fee.
    pub recipient: Identity,
}

/// The fee that is actually owed under `levy`.
///
/// An absent levy and a levy of amount zero are two ways to write "no fee".
/// The canonical form is `None`: both collapse to it, whatever asset and
/// recipient the zero levy names. Any other levy is owed as it stands.
pub open spec fn fee_due(levy: Option<Levy>) -> Option<Levy> {
    match levy {
        Some(l) => if l.amount == 0 {
            None
        } else {
            Some(l)
        },
        None => None,
    }
}

impl Levy {
    /// Builds a levy from its three parts.
    pub fn new(amount: u64, asset: Option<Identity>, recipient: Identity) -> (levy: Levy)
        ensures
            levy == (Levy { amount, asset, recipient }),
    {
        Levy { amount, asset, recipient }
    }

    /// The canonical form of an optional levy: see `fee_due`.
    pub fn due(levy: &Option<Levy>) -> (owed: Option<Levy>)
        ensures
            owed == fee_due(*levy),
    {
        match levy {
            Some(l) => {
                if l.amount == 0 {
                    None
                } else {
                    Some(*l)
                }
            },
            None => None,
        }
    }
}

} // verus!
