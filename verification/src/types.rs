use vstd::prelude::*;

verus! {

/// Content-addressed reference to off-chain content, kept opaque by the core.
pub type IpfsHash = String;

/// Principal identifier; callers arrive already authenticated by the
/// surrounding execution environment.
pub type AccountId = u128;

/// Non-negative amount of value held or moved by the ledger.
pub type Balance = u128;

/// Why an operation was rejected. Every error aborts the whole operation
/// with no state change.
#[derive(Clone, Copy, Debug, PartialEq, Eq, Structural)]
pub enum Error {
    /// No active bounty with the given id.
    NotFound,
    /// The caller is not the bounty's asker where that is required.
    Unauthorized,
    /// The presence of a bid amount does not match the bounty's mode.
    InvalidBidShape,
    /// The value transferred with the call differs from the declared amount.
    StakeMismatch,
    /// An auction bid that is not strictly greater than the accepted bid.
    BidTooLow,
    /// The ledger could not move funds; reported by the surrounding glue.
    TransferFailed,
    /// Defensive fault: an invariant assumed to be unreachable was violated.
    LogicError,
}

/// An instruction to the external ledger: pay `amount` to `to`.
#[derive(Clone, Copy, Debug, PartialEq, Eq, Structural)]
pub struct Transfer {
    pub to: AccountId,
    pub amount: Balance,
}

/// A proposal: either the asker's original ask or a competing bid.
pub struct AskBid {
    /// The proposing principal.
    pub doer: AccountId,
    /// Reference to the off-chain content of the proposal.
    pub data: IpfsHash,
    /// Optional stake or price; its presence is semantically significant:
    /// on an ask it selects the bounty's mode, on a bid it must match it.
    pub amount: Option<Balance>,
}

impl Clone for AskBid {
    fn clone(&self) -> (r: Self)
        ensures
            r == *self,
    {
        AskBid { doer: self.doer, data: self.data.clone(), amount: self.amount }
    }
}

/// The unit of the marketplace.
pub struct Bounty {
    /// Unique identifier, assigned once at creation and never reused.
    pub id: u32,
    /// The asker's original proposal. `ask.amount` fixes the mode for the
    /// bounty's whole lifetime: `Some` is commission mode (the asker escrows
    /// the payment), `None` is auction mode (bidders escrow rising stakes).
    pub ask: AskBid,
    /// The single most recently accepted proposal, `None` until a bid lands.
    pub current_bid: Option<AskBid>,
}

impl Clone for Bounty {
    fn clone(&self) -> (r: Self)
        ensures
            r == *self,
    {
        Bounty {
            id: self.id,
            ask: self.ask.clone(),
            current_bid: (match &self.current_bid {
                Some(b) => Some(b.clone()),
                None => None,
            }),
        }
    }
}

impl Bounty {
    /// Mode discipline: a commission-mode bounty only ever carries stakeless
    /// bids, and an auction-mode bounty only ever carries staked bids.
    pub open spec fn wf(self) -> bool {
        match self.current_bid {
            None => true,
            Some(b) => match self.ask.amount {
                Some(_) => b.amount is None,
                None => b.amount is Some,
            },
        }
    }
}

} // verus!
