use vstd::prelude::*;

verus! {

/// The failure kinds a registry operation can report. Every operation that
/// fails leaves the contract state exactly as it was.
#[derive(Clone, Copy, PartialEq, Eq, Structural, Debug)]
pub enum ContractError {
    /// The caller is not the account the operation demands (the owner for
    /// allocation and owner rotation, the bound account for deletion).
    Unauthorized,
    /// The minimal-value confirmation deposit was not attached.
    MissingConfirmation,
    /// The phone already has a binding in the registry.
    AlreadyBound,
    /// The phone has no binding in the registry.
    NotBound,
    /// Summing the pending native amounts for a phone would overflow.
    ArithmeticOverflow,
}

/// A pending native-value transfer: value attributed to a phone before the
/// phone is claimed.
pub struct NearTrustTransaction {
    pub from_account_id: String,
    pub amount: u128,
}

/// Mathematical image of a pending native-value transfer.
pub ghost struct NearTrustView {
    pub from_account_id: Seq<char>,
    pub amount: u128,
}

/// A pending fungible-token transfer: one entry per deposit event, replayed
/// individually at settlement to preserve token-contract provenance.
pub struct FtTrustTransaction {
    pub from_account_id: String,
    pub ft_contract_id: String,
    pub ft_amount: u128,
}

/// Mathematical image of a pending fungible-token transfer.
pub ghost struct FtTrustView {
    pub from_account_id: Seq<char>,
    pub ft_contract_id: Seq<char>,
    pub ft_amount: u128,
}

/// A pending non-fungible-token transfer: a specific unique asset instance
/// that must be forwarded to exactly one recipient exactly once.
pub struct NftTrustTransaction {
    pub from_account_id: String,
    pub nft_contract_id: String,
    pub nft_token_id: String,
}

/// Mathematical image of a pending non-fungible-token transfer.
pub ghost struct NftTrustView {
    pub from_account_id: Seq<char>,
    pub nft_contract_id: Seq<char>,
    pub nft_token_id: Seq<char>,
}

impl View for NearTrustTransaction {
    type V = NearTrustView;

    open spec fn view(&self) -> NearTrustView {
        NearTrustView { from_account_id: self.from_account_id@, amount: self.amount }
    }
}

impl DeepView for NearTrustTransaction {
    type V = NearTrustView;

    open spec fn deep_view(&self) -> NearTrustView {
        self.view()
    }
}

impl Clone for NearTrustTransaction {
    fn clone(&self) -> (r: Self)
        ensures
            r == *self,
    {
        NearTrustTransaction { from_account_id: self.from_account_id.clone(), amount: self.amount }
    }
}

impl View for FtTrustTransaction {
    type V = FtTrustView;

    open spec fn view(&self) -> FtTrustView {
        FtTrustView {
            from_account_id: self.from_account_id@,
            ft_contract_id: self.ft_contract_id@,
            ft_amount: self.ft_amount,
        }
    }
}

impl DeepView for FtTrustTransaction {
    type V = FtTrustView;

    open spec fn deep_view(&self) -> FtTrustView {
        self.view()
    }
}

impl Clone for FtTrustTransaction {
    fn clone(&self) -> (r: Self)
        ensures
            r == *self,
    {
        FtTrustTransaction {
            from_account_id: self.from_account_id.clone(),
            ft_contract_id: self.ft_contract_id.clone(),
            ft_amount: self.ft_amount,
        }
    }
}

impl View for NftTrustTransaction {
    type V = NftTrustView;

    open spec fn view(&self) -> NftTrustView {
        NftTrustView {
            from_account_id: self.from_account_id@,
            nft_contract_id: self.nft_contract_id@,
            nft_token_id: self.nft_token_id@,
        }
    }
}

impl DeepView for NftTrustTransaction {
    type V = NftTrustView;

    open spec fn deep_view(&self) -> NftTrustView {
        self.view()
    }
}

impl Clone for NftTrustTransaction {
    fn clone(&self) -> (r: Self)
        ensures
            r == *self,
    {
        NftTrustTransaction {
            from_account_id: self.from_account_id.clone(),
            nft_contract_id: self.nft_contract_id.clone(),
            nft_token_id: self.nft_token_id.clone(),
        }
    }
}

/// An outbound asset movement that an operation asks the host to perform.
/// Requests are fire-and-forget: the core schedules them and never observes
/// their outcome.
#[derive(Debug)]
pub enum OutboundTransfer {
    /// Move native value to an account.
    Native { receiver_id: String, amount: u128 },
    /// Ask a fungible-token service to move an amount to an account.
    Ft { ft_contract_id: String, receiver_id: String, amount: u128 },
    /// Ask a non-fungible-token service to move one token to an account.
    Nft { nft_contract_id: String, receiver_id: String, token_id: String },
}

/// Mathematical image of an outbound asset movement.
pub ghost enum OutboundTransferView {
    Native { receiver_id: Seq<char>, amount: u128 },
    Ft { ft_contract_id: Seq<char>, receiver_id: Seq<char>, amount: u128 },
    Nft { nft_contract_id: Seq<char>, receiver_id: Seq<char>, token_id: Seq<char> },
}

impl View for OutboundTransfer {
    type V = OutboundTransferView;

    open spec fn view(&self) -> OutboundTransferView {
        match self {
            OutboundTransfer::Native { receiver_id, amount } => OutboundTransferView::Native {
                receiver_id: receiver_id@,
                amount: *amount,
            },
            OutboundTransfer::Ft { ft_contract_id, receiver_id, amount } => OutboundTransferView::Ft {
                ft_contract_id: ft_contract_id@,
                receiver_id: receiver_id@,
                amount: *amount,
            },
            OutboundTransfer::Nft { nft_contract_id, receiver_id, token_id } => (OutboundTransferView::Nft {
                nft_contract_id: nft_contract_id@,
                receiver_id: receiver_id@,
                token_id: token_id@,
            }),
        }
    }
}

impl DeepView for OutboundTransfer {
    type V = OutboundTransferView;

    open spec fn deep_view(&self) -> OutboundTransferView {
        self.view()
    }
}

/// The interface of the external non-fungible-token mover, as this registry
/// relies on it: a one-way request to forward one token to a receiver.
pub trait NftContract {
    fn nft_transfer(&self, receiver_id: String, token_id: String);
}

/// The interface of the external fungible-token mover, as this registry
/// relies on it: a one-way request to forward an amount to a receiver.
pub trait FtContract {
    fn ft_transfer(&self, receiver_id: String, amount: u128);
}

} // verus!
