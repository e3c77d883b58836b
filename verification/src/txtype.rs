use vstd::prelude::*;

verus! {

/// The six transaction kinds the SDK can prepare.  The wire discriminant of
/// each kind is fixed by the protocol and given by [`TxType::code`].
#[derive(Clone, Copy, Debug, PartialEq, Eq, Structural)]
pub enum TxType {
    Bond,
    Unbond,
    Withdraw,
    Transfer,
    IBCTransfer,
    RevealPK,
}

/// The protocol discriminant of a transaction kind.
pub open spec fn spec_code(t: TxType) -> u8 {
    match t {
        TxType::Bond => 1,
        TxType::Unbond => 2,
        TxType::Withdraw => 3,
        TxType::Transfer => 4,
        TxType::IBCTransfer => 5,
        TxType::RevealPK => 6,
    }
}

/// The kind a protocol discriminant denotes, if any.
pub open spec fn spec_from_code(c: u8) -> Option<TxType> {
    if c == 1 {
        Some(TxType::Bond)
    } else if c == 2 {
        Some(TxType::Unbond)
    } else if c == 3 {
        Some(TxType::Withdraw)
    } else if c == 4 {
        Some(TxType::Transfer)
    } else if c == 5 {
        Some(TxType::IBCTransfer)
    } else if c == 6 {
        Some(TxType::RevealPK)
    } else {
        None
    }
}

impl TxType {
    /// The enumerated integer value of this kind on the wire: 1 for Bond,
    /// 2 for Unbond, 3 for Withdraw, 4 for Transfer, 5 for IBCTransfer,
    /// 6 for RevealPK.
    pub fn code(&self) -> (r: u8)
        ensures
            r == spec_code(*self),
    {
        match self {
            TxType::Bond => 1,
            TxType::Unbond => 2,
            TxType::Withdraw => 3,
            TxType::Transfer => 4,
            TxType::IBCTransfer => 5,
            TxType::RevealPK => 6,
        }
    }

    /// Recovers a kind from its wire discriminant; any value outside 1..=6
    /// denotes no kind.
    pub fn from_code(c: u8) -> (r: Option<TxType>)
        ensures
            r == spec_from_code(c),
    {
        if c == 1 {
            Some(TxType::Bond)
        } else if c == 2 {
            Some(TxType::Unbond)
        } else if c == 3 {
            Some(TxType::Withdraw)
        } else if c == 4 {
            Some(TxType::Transfer)
        } else if c == 5 {
            Some(TxType::IBCTransfer)
        } else if c == 6 {
            Some(TxType::RevealPK)
        } else {
            None
        }
    }
}

/// A kind always comes back from its own discriminant.
pub proof fn lemma_code_round_trip(t: TxType)
    ensures
        spec_from_code(spec_code(t)) == Some(t),
{
}

} // verus!
