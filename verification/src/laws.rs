use crate::contract::{
    allocate_spec, delete_spec, ft_notify_spec, ft_outbound_of, nft_notify_spec, send_native_spec,
    settlement_plan, sum_amounts, ContractView,
};
use crate::types::{ContractError, FtTrustView, NearTrustView, NftTrustView, OutboundTransferView};
use vstd::prelude::*;

verus! {

/// A phone that was never deposited to and never allocated: it is absent from
/// the binding table and no ledger ever created a list for it, so all four
/// queries report none.
pub open spec fn phone_untracked(cv: ContractView, p: Seq<char>) -> bool {
    &&& !cv.registry.dom().contains(p)
    &&& !cv.native.dom().contains(p)
    &&& !cv.ft.dom().contains(p)
    &&& !cv.nft.dom().contains(p)
}

/// In a fresh registry every phone is untracked.
pub proof fn lemma_new_phone_untracked(owner: Seq<char>, p: Seq<char>)
    ensures
        phone_untracked(
            ContractView {
                registry: Map::<Seq<char>, Seq<char>>::empty(),
                native: Map::<Seq<char>, Seq<NearTrustView>>::empty(),
                ft: Map::<Seq<char>, Seq<FtTrustView>>::empty(),
                nft: Map::<Seq<char>, Seq<NftTrustView>>::empty(),
                owner: owner,
            },
            p,
        ),
{
}

/// A native deposit aimed at another phone leaves an untracked phone
/// untracked.
pub proof fn lemma_send_native_keeps_untracked(
    pre: ContractView,
    phone: Seq<char>,
    caller: Seq<char>,
    deposit: u128,
    p: Seq<char>,
)
    requires
        p != phone,
        phone_untracked(pre, p),
    ensures
        phone_untracked(send_native_spec(pre, phone, caller, deposit).0, p),
{
}

/// A fungible-token notification aimed at another phone leaves an untracked
/// phone untracked.
pub proof fn lemma_ft_notify_keeps_untracked(
    pre: ContractView,
    sender: Seq<char>,
    amount: u128,
    phone: Seq<char>,
    token_contract: Seq<char>,
    p: Seq<char>,
)
    requires
        p != phone,
        phone_untracked(pre, p),
    ensures
        phone_untracked(ft_notify_spec(pre, sender, amount, phone, token_contract).0, p),
{
}

/// A non-fungible-token notification aimed at another phone leaves an
/// untracked phone untracked.
pub proof fn lemma_nft_notify_keeps_untracked(
    pre: ContractView,
    previous_owner: Seq<char>,
    token_id: Seq<char>,
    phone: Seq<char>,
    token_contract: Seq<char>,
    p: Seq<char>,
)
    requires
        p != phone,
        phone_untracked(pre, p),
    ensures
        phone_untracked(nft_notify_spec(pre, previous_owner, token_id, phone, token_contract).0, p),
{
}

/// Allocating another phone leaves an untracked phone untracked: allocation
/// only binds its own phone and only clears ledgers, never fills them.
pub proof fn lemma_allocate_keeps_untracked(
    pre: ContractView,
    phone: Seq<char>,
    account: Seq<char>,
    caller: Seq<char>,
    deposit: u128,
    p: Seq<char>,
)
    requires
        p != phone,
        phone_untracked(pre, p),
    ensures
        phone_untracked(allocate_spec(pre, phone, account, caller, deposit).0, p),
{
}

/// Deleting a binding, for any phone, leaves an untracked phone untracked.
pub proof fn lemma_delete_keeps_untracked(
    pre: ContractView,
    phone: Seq<char>,
    caller: Seq<char>,
    deposit: u128,
    p: Seq<char>,
)
    requires
        phone_untracked(pre, p),
    ensures
        phone_untracked(delete_spec(pre, phone, caller, deposit).0, p),
{
}

/// A deposit aimed at a phone already bound to an account is routed to that
/// account at once, whatever its asset class, and the state — in particular
/// every pending list — is left exactly as it was, so the deposit never shows
/// up in any query.
pub proof fn lemma_bound_phone_routes_immediately(
    pre: ContractView,
    p: Seq<char>,
    caller: Seq<char>,
    amount: u128,
    token_id: Seq<char>,
    token_contract: Seq<char>,
)
    requires
        pre.registry.dom().contains(p),
    ensures
        send_native_spec(pre, p, caller, amount) == (
            pre,
            Some(
                OutboundTransferView::Native { receiver_id: pre.registry[p], amount: amount },
            ),
        ),
        ft_notify_spec(pre, caller, amount, p, token_contract) == (
            pre,
            Some(
                OutboundTransferView::Ft {
                    ft_contract_id: token_contract,
                    receiver_id: pre.registry[p],
                    amount: amount,
                },
            ),
        ),
        nft_notify_spec(pre, caller, token_id, p, token_contract) == (
            pre,
            Some(
                OutboundTransferView::Nft {
                    nft_contract_id: token_contract,
                    receiver_id: pre.registry[p],
                    token_id: token_id,
                },
            ),
        ),
{
}

/// Allocating a phone that is already bound fails with the already-bound
/// error, even for the owner with confirmation attached, and leaves the
/// bindings and the ledgers exactly as they were.
pub proof fn lemma_allocate_already_bound_changes_nothing(
    pre: ContractView,
    phone: Seq<char>,
    account: Seq<char>,
)
    requires
        pre.registry.dom().contains(phone),
    ensures
        allocate_spec(pre, phone, account, pre.owner, 1) == (
            pre,
            Err::<Seq<OutboundTransferView>, ContractError>(ContractError::AlreadyBound),
        ),
{
}

/// Deleting a phone on behalf of any account other than the one it is bound
/// to fails as unauthorized and leaves the binding intact.
pub proof fn lemma_delete_by_other_account_keeps_binding(
    pre: ContractView,
    phone: Seq<char>,
    caller: Seq<char>,
)
    requires
        pre.registry.dom().contains(phone),
        pre.registry[phone] != caller,
    ensures
        delete_spec(pre, phone, caller, 1) == (
            pre,
            Err::<(), ContractError>(ContractError::Unauthorized),
        ),
{
}

/// Allocation by anyone but the owner fails as unauthorized, whatever
/// confirmation value is attached, and changes nothing.
pub proof fn lemma_allocate_by_non_owner_fails(
    pre: ContractView,
    phone: Seq<char>,
    account: Seq<char>,
    caller: Seq<char>,
    deposit: u128,
)
    requires
        caller != pre.owner,
    ensures
        allocate_spec(pre, phone, account, caller, deposit) == (
            pre,
            Err::<Seq<OutboundTransferView>, ContractError>(ContractError::Unauthorized),
        ),
{
}

/// Depositing native amount `a` to an untracked phone and then allocating the
/// phone to `x` (by the owner, with confirmation) succeeds and settles as
/// exactly one outbound native transfer of `a` to `x`; afterwards the phone's
/// pending native list is gone and the phone is bound to `x`.
pub proof fn lemma_single_deposit_settles_once(
    pre: ContractView,
    p: Seq<char>,
    from: Seq<char>,
    a: u128,
    x: Seq<char>,
)
    requires
        phone_untracked(pre, p),
    ensures
        ({
            let (s1, r1) = send_native_spec(pre, p, from, a);
            let (s2, r2) = allocate_spec(s1, p, x, s1.owner, 1);
            &&& r1 is None
            &&& r2 == Ok::<Seq<OutboundTransferView>, ContractError>(
                seq![OutboundTransferView::Native { receiver_id: x, amount: a }],
            )
            &&& s2.registry.dom().contains(p) && s2.registry[p] == x
            &&& !s2.native.dom().contains(p)
        }),
{
    let (s1, r1) = send_native_spec(pre, p, from, a);
    let rec = NearTrustView { from_account_id: from, amount: a };
    assert(s1.native[p] =~= seq![rec]);
    assert(seq![rec].drop_last() =~= Seq::<NearTrustView>::empty());
    assert(sum_amounts(Seq::<NearTrustView>::empty()) == 0);
    assert(seq![rec].last() == rec);
    assert(sum_amounts(seq![rec]) == a);
    let (s2, r2) = allocate_spec(s1, p, x, s1.owner, 1);
    assert(settlement_plan(s1, p, x) =~= seq![
        OutboundTransferView::Native { receiver_id: x, amount: a },
    ]);
}

/// Two native deposits to an untracked phone settle, at allocation, as a
/// single outbound transfer of their sum, not as two transfers. The sum is
/// required to fit the native amount width: when it does not, allocation
/// fails whole with the overflow error instead of settling.
pub proof fn lemma_two_deposits_settle_as_sum(
    pre: ContractView,
    p: Seq<char>,
    from1: Seq<char>,
    a1: u128,
    from2: Seq<char>,
    a2: u128,
    x: Seq<char>,
)
    requires
        phone_untracked(pre, p),
        a1 + a2 <= u128::MAX,
    ensures
        ({
            let (s1, r1) = send_native_spec(pre, p, from1, a1);
            let (s2, r2) = send_native_spec(s1, p, from2, a2);
            let (s3, r3) = allocate_spec(s2, p, x, s2.owner, 1);
            &&& r1 is None
            &&& r2 is None
            &&& r3 == Ok::<Seq<OutboundTransferView>, ContractError>(
                seq![
                    OutboundTransferView::Native { receiver_id: x, amount: (a1 + a2) as u128 },
                ],
            )
            &&& !s3.native.dom().contains(p)
        }),
{
    let (s1, r1) = send_native_spec(pre, p, from1, a1);
    let (s2, r2) = send_native_spec(s1, p, from2, a2);
    let rec1 = NearTrustView { from_account_id: from1, amount: a1 };
    let rec2 = NearTrustView { from_account_id: from2, amount: a2 };
    assert(s1.native[p] =~= seq![rec1]);
    assert(s2.native[p] =~= seq![rec1, rec2]);
    assert(seq![rec1, rec2].drop_last() =~= seq![rec1]);
    assert(seq![rec1].drop_last() =~= Seq::<NearTrustView>::empty());
    assert(sum_amounts(Seq::<NearTrustView>::empty()) == 0);
    assert(seq![rec1].last() == rec1);
    assert(sum_amounts(seq![rec1]) == a1);
    assert(seq![rec1, rec2].last() == rec2);
    assert(sum_amounts(seq![rec1, rec2]) == a1 + a2);
    let (s3, r3) = allocate_spec(s2, p, x, s2.owner, 1);
    assert(settlement_plan(s2, p, x) =~= seq![
        OutboundTransferView::Native { receiver_id: x, amount: (a1 + a2) as u128 },
    ]);
}

/// Two fungible-token deposits to an untracked phone (possibly against the
/// same token contract) settle, at allocation, as exactly two outbound
/// fungible requests in arrival order, never aggregated.
pub proof fn lemma_two_ft_deposits_settle_in_order(
    pre: ContractView,
    p: Seq<char>,
    sender1: Seq<char>,
    a1: u128,
    c1: Seq<char>,
    sender2: Seq<char>,
    a2: u128,
    c2: Seq<char>,
    x: Seq<char>,
)
    requires
        phone_untracked(pre, p),
    ensures
        ({
            let (s1, r1) = ft_notify_spec(pre, sender1, a1, p, c1);
            let (s2, r2) = ft_notify_spec(s1, sender2, a2, p, c2);
            let (s3, r3) = allocate_spec(s2, p, x, s2.owner, 1);
            &&& r1 is None
            &&& r2 is None
            &&& r3 == Ok::<Seq<OutboundTransferView>, ContractError>(
                seq![
                    OutboundTransferView::Ft { ft_contract_id: c1, receiver_id: x, amount: a1 },
                    OutboundTransferView::Ft { ft_contract_id: c2, receiver_id: x, amount: a2 },
                ],
            )
            &&& !s3.ft.dom().contains(p)
        }),
{
    let (s1, r1) = ft_notify_spec(pre, sender1, a1, p, c1);
    let (s2, r2) = ft_notify_spec(s1, sender2, a2, p, c2);
    let rec1 = FtTrustView { from_account_id: sender1, ft_contract_id: c1, ft_amount: a1 };
    let rec2 = FtTrustView { from_account_id: sender2, ft_contract_id: c2, ft_amount: a2 };
    assert(s1.ft[p] =~= seq![rec1]);
    assert(s2.ft[p] =~= seq![rec1, rec2]);
    let (s3, r3) = allocate_spec(s2, p, x, s2.owner, 1);
    assert(ft_outbound_of(seq![rec1, rec2], x) =~= seq![
        OutboundTransferView::Ft { ft_contract_id: c1, receiver_id: x, amount: a1 },
        OutboundTransferView::Ft { ft_contract_id: c2, receiver_id: x, amount: a2 },
    ]);
    assert(settlement_plan(s2, p, x) =~= seq![
        OutboundTransferView::Ft { ft_contract_id: c1, receiver_id: x, amount: a1 },
        OutboundTransferView::Ft { ft_contract_id: c2, receiver_id: x, amount: a2 },
    ]);
}

} // verus!
