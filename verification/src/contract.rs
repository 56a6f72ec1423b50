use crate::table::Table;
use crate::types::{
    ContractError, FtTrustTransaction, FtTrustView, NearTrustTransaction, NearTrustView,
    NftTrustTransaction, NftTrustView, OutboundTransfer, OutboundTransferView,
};
use vstd::prelude::*;

verus! {

/// Mathematical image of the whole registry state: the phone-to-account
/// binding table, the three per-phone escrow ledgers, and the owner.
/// A phone absent from a ledger map never had a list created for it, which
/// queries report as "none" rather than an empty list.
#[verifier::ext_equal]
pub ghost struct ContractView {
    pub registry: Map<Seq<char>, Seq<char>>,
    pub native: Map<Seq<char>, Seq<NearTrustView>>,
    pub ft: Map<Seq<char>, Seq<FtTrustView>>,
    pub nft: Map<Seq<char>, Seq<NftTrustView>>,
    pub owner: Seq<char>,
}

/// The ledger list for `phone` with `record` appended, the list being created
/// on first use.
pub open spec fn appended<T>(ledger: Map<Seq<char>, Seq<T>>, phone: Seq<char>, record: T) -> Seq<
    T,
> {
    if ledger.dom().contains(phone) {
        ledger[phone].push(record)
    } else {
        seq![record]
    }
}

/// The sum of all pending native amounts, as an unbounded integer.
pub open spec fn sum_amounts(s: Seq<NearTrustView>) -> int
    decreases s.len(),
{
    if s.len() == 0 {
        0
    } else {
        sum_amounts(s.drop_last()) + s.last().amount
    }
}

/// Extending a prefix by one entry adds that entry's amount to its sum.
proof fn lemma_sum_take_succ(s: Seq<NearTrustView>, i: int)
    requires
        0 <= i < s.len(),
    ensures
        sum_amounts(s.take(i + 1)) == sum_amounts(s.take(i)) + s[i].amount,
{
    let t = s.take(i + 1);
    assert(t.drop_last() =~= s.take(i));
    assert(t.last() == s[i]);
}

/// Amounts are non-negative, so a prefix never sums to more than the whole.
proof fn lemma_sum_prefix_le(s: Seq<NearTrustView>, i: int)
    requires
        0 <= i <= s.len(),
    ensures
        sum_amounts(s.take(i)) <= sum_amounts(s),
    decreases s.len() - i,
{
    if i == s.len() {
        assert(s.take(i) =~= s);
    } else {
        lemma_sum_take_succ(s, i);
        lemma_sum_prefix_le(s, i + 1);
    }
}

/// The native leg of settlement: if the phone ever had native deposits, one
/// outbound transfer of their sum; otherwise nothing.
pub open spec fn native_outbound(
    pre: ContractView,
    phone: Seq<char>,
    account: Seq<char>,
) -> Seq<OutboundTransferView> {
    if pre.native.dom().contains(phone) {
        seq![
            OutboundTransferView::Native {
                receiver_id: account,
                amount: sum_amounts(pre.native[phone]) as u128,
            },
        ]
    } else {
        Seq::empty()
    }
}

/// One fungible-token request per pending entry, in arrival order, never
/// aggregated, each against its own token contract.
pub open spec fn ft_outbound_of(entries: Seq<FtTrustView>, account: Seq<char>) -> Seq<
    OutboundTransferView,
> {
    entries.map_values(
        |t: FtTrustView|
            OutboundTransferView::Ft {
                ft_contract_id: t.ft_contract_id,
                receiver_id: account,
                amount: t.ft_amount,
            },
    )
}

/// The fungible-token leg of settlement.
pub open spec fn ft_outbound(pre: ContractView, phone: Seq<char>, account: Seq<char>) -> Seq<
    OutboundTransferView,
> {
    if pre.ft.dom().contains(phone) {
        ft_outbound_of(pre.ft[phone], account)
    } else {
        Seq::empty()
    }
}

/// One non-fungible-token request per pending entry, in arrival order.
pub open spec fn nft_outbound_of(entries: Seq<NftTrustView>, account: Seq<char>) -> Seq<
    OutboundTransferView,
> {
    entries.map_values(
        |t: NftTrustView|
            OutboundTransferView::Nft {
                nft_contract_id: t.nft_contract_id,
                receiver_id: account,
                token_id: t.nft_token_id,
            },
    )
}

/// The non-fungible-token leg of settlement.
pub open spec fn nft_outbound(pre: ContractView, phone: Seq<char>, account: Seq<char>) -> Seq<
    OutboundTransferView,
> {
    if pre.nft.dom().contains(phone) {
        nft_outbound_of(pre.nft[phone], account)
    } else {
        Seq::empty()
    }
}

/// Everything owed to a phone at claim time, in the fixed class order:
/// native first, then fungible tokens, then non-fungible tokens.
pub open spec fn settlement_plan(pre: ContractView, phone: Seq<char>, account: Seq<char>) -> Seq<
    OutboundTransferView,
> {
    native_outbound(pre, phone, account) + ft_outbound(pre, phone, account) + nft_outbound(
        pre,
        phone,
        account,
    )
}

/// What `allocate_phone` does: the state it leaves and the outcome it
/// reports, both functions of the state it found and its arguments.
pub open spec fn allocate_spec(
    pre: ContractView,
    phone: Seq<char>,
    account: Seq<char>,
    caller: Seq<char>,
    deposit: u128,
) -> (ContractView, Result<Seq<OutboundTransferView>, ContractError>) {
    if caller != pre.owner {
        (pre, Err(ContractError::Unauthorized))
    } else if deposit != 1 {
        (pre, Err(ContractError::MissingConfirmation))
    } else if pre.registry.dom().contains(phone) {
        (pre, Err(ContractError::AlreadyBound))
    } else if pre.native.dom().contains(phone) && sum_amounts(pre.native[phone]) > u128::MAX {
        (pre, Err(ContractError::ArithmeticOverflow))
    } else {
        (
            ContractView {
                registry: pre.registry.insert(phone, account),
                native: pre.native.remove(phone),
                ft: pre.ft.remove(phone),
                nft: pre.nft.remove(phone),
                owner: pre.owner,
            },
            Ok(settlement_plan(pre, phone, account)),
        )
    }
}

/// What a native deposit aimed at `phone` does: route straight to the bound
/// account, or join the phone's pending list.
pub open spec fn send_native_spec(
    pre: ContractView,
    phone: Seq<char>,
    caller: Seq<char>,
    deposit: u128,
) -> (ContractView, Option<OutboundTransferView>) {
    if pre.registry.dom().contains(phone) {
        (
            pre,
            Some(
                OutboundTransferView::Native { receiver_id: pre.registry[phone], amount: deposit },
            ),
        )
    } else {
        (
            ContractView {
                registry: pre.registry,
                native: pre.native.insert(
                    phone,
                    appended(
                        pre.native,
                        phone,
                        NearTrustView { from_account_id: caller, amount: deposit },
                    ),
                ),
                ft: pre.ft,
                nft: pre.nft,
                owner: pre.owner,
            },
            None,
        )
    }
}

/// What a fungible-token notification does: route straight to the bound
/// account, or record a pending entry under the phone named in the message.
pub open spec fn ft_notify_spec(
    pre: ContractView,
    sender: Seq<char>,
    amount: u128,
    phone: Seq<char>,
    token_contract: Seq<char>,
) -> (ContractView, Option<OutboundTransferView>) {
    if pre.registry.dom().contains(phone) {
        (
            pre,
            Some(
                OutboundTransferView::Ft {
                    ft_contract_id: token_contract,
                    receiver_id: pre.registry[phone],
                    amount: amount,
                },
            ),
        )
    } else {
        (
            ContractView {
                registry: pre.registry,
                native: pre.native,
                ft: pre.ft.insert(
                    phone,
                    appended(
                        pre.ft,
                        phone,
                        FtTrustView {
                            from_account_id: sender,
                            ft_contract_id: token_contract,
                            ft_amount: amount,
                        },
                    ),
                ),
                nft: pre.nft,
                owner: pre.owner,
            },
            None,
        )
    }
}

/// What a non-fungible-token notification does: route straight to the bound
/// account, or record a pending entry under the phone named in the message.
pub open spec fn nft_notify_spec(
    pre: ContractView,
    previous_owner: Seq<char>,
    token_id: Seq<char>,
    phone: Seq<char>,
    token_contract: Seq<char>,
) -> (ContractView, Option<OutboundTransferView>) {
    if pre.registry.dom().contains(phone) {
        (
            pre,
            Some(
                OutboundTransferView::Nft {
                    nft_contract_id: token_contract,
                    receiver_id: pre.registry[phone],
                    token_id: token_id,
                },
            ),
        )
    } else {
        (
            ContractView {
                registry: pre.registry,
                native: pre.native,
                ft: pre.ft,
                nft: pre.nft.insert(
                    phone,
                    appended(
                        pre.nft,
                        phone,
                        NftTrustView {
                            from_account_id: previous_owner,
                            nft_contract_id: token_contract,
                            nft_token_id: token_id,
                        },
                    ),
                ),
                owner: pre.owner,
            },
            None,
        )
    }
}

/// What `delete_phone` does.
pub open spec fn delete_spec(
    pre: ContractView,
    phone: Seq<char>,
    caller: Seq<char>,
    deposit: u128,
) -> (ContractView, Result<(), ContractError>) {
    if deposit != 1 {
        (pre, Err(ContractError::MissingConfirmation))
    } else if !pre.registry.dom().contains(phone) {
        (pre, Err(ContractError::NotBound))
    } else if pre.registry[phone] != caller {
        (pre, Err(ContractError::Unauthorized))
    } else {
        (
            ContractView {
                registry: pre.registry.remove(phone),
                native: pre.native,
                ft: pre.ft,
                nft: pre.nft,
                owner: pre.owner,
            },
            Ok(()),
        )
    }
}

/// The deferred-settlement escrow registry.
pub struct Contract {
    phone_to_user: Table<String>,
    near_trusts: Table<Vec<NearTrustTransaction>>,
    ft_trusts: Table<Vec<FtTrustTransaction>>,
    nft_trusts: Table<Vec<NftTrustTransaction>>,
    owner_id: String,
}

impl View for Contract {
    type V = ContractView;

    closed spec fn view(&self) -> ContractView {
        ContractView {
            registry: self.phone_to_user@,
            native: self.near_trusts@,
            ft: self.ft_trusts@,
            nft: self.nft_trusts@,
            owner: self.owner_id@,
        }
    }
}

/// An element-by-element copy of a pending native list.
fn clone_native_list(v: &Vec<NearTrustTransaction>) -> (r: Vec<NearTrustTransaction>)
    ensures
        r@ == v@,
{
    let mut r: Vec<NearTrustTransaction> = Vec::new();
    let mut i: usize = 0;
    while i < v.len()
        invariant
            i <= v@.len(),
            r@ =~= v@.take(i as int),
        decreases v@.len() - i,
    {
        r.push(v[i].clone());
        i += 1;
    }
    proof {
        assert(v@.take(v@.len() as int) =~= v@);
    }
    r
}

/// An element-by-element copy of a pending fungible-token list.
fn clone_ft_list(v: &Vec<FtTrustTransaction>) -> (r: Vec<FtTrustTransaction>)
    ensures
        r@ == v@,
{
    let mut r: Vec<FtTrustTransaction> = Vec::new();
    let mut i: usize = 0;
    while i < v.len()
        invariant
            i <= v@.len(),
            r@ =~= v@.take(i as int),
        decreases v@.len() - i,
    {
        r.push(v[i].clone());
        i += 1;
    }
    proof {
        assert(v@.take(v@.len() as int) =~= v@);
    }
    r
}

/// An element-by-element copy of a pending non-fungible-token list.
fn clone_nft_list(v: &Vec<NftTrustTransaction>) -> (r: Vec<NftTrustTransaction>)
    ensures
        r@ == v@,
{
    let mut r: Vec<NftTrustTransaction> = Vec::new();
    let mut i: usize = 0;
    while i < v.len()
        invariant
            i <= v@.len(),
            r@ =~= v@.take(i as int),
        decreases v@.len() - i,
    {
        r.push(v[i].clone());
        i += 1;
    }
    proof {
        assert(v@.take(v@.len() as int) =~= v@);
    }
    r
}

impl Contract {
    /// All four tables are internally valid.
    pub closed spec fn wf(self) -> bool {
        &&& self.phone_to_user.wf()
        &&& self.near_trusts.wf()
        &&& self.ft_trusts.wf()
        &&& self.nft_trusts.wf()
    }

    /// A fresh registry: no bindings, no pending lists, `owner_id` in charge.
    pub fn new(owner_id: String) -> (r: Self)
        ensures
            r.wf(),
            r@ == (ContractView {
                registry: Map::<Seq<char>, Seq<char>>::empty(),
                native: Map::<Seq<char>, Seq<NearTrustView>>::empty(),
                ft: Map::<Seq<char>, Seq<FtTrustView>>::empty(),
                nft: Map::<Seq<char>, Seq<NftTrustView>>::empty(),
                owner: owner_id@,
            }),
    {
        Contract {
            phone_to_user: Table::new(),
            near_trusts: Table::new(),
            ft_trusts: Table::new(),
            nft_trusts: Table::new(),
            owner_id,
        }
    }

    /// Rebuild a registry from the raw pair lists a host hands back from
    /// persistent storage, a later entry for a key overriding an earlier one.
    pub fn from_parts(
        owner_id: String,
        registry: Vec<(String, String)>,
        native: Vec<(String, Vec<NearTrustTransaction>)>,
        ft: Vec<(String, Vec<FtTrustTransaction>)>,
        nft: Vec<(String, Vec<NftTrustTransaction>)>,
    ) -> (r: Self)
        ensures
            r.wf(),
            r@ == (ContractView {
                registry: crate::table::pairs_map(registry@),
                native: crate::table::pairs_map(native@),
                ft: crate::table::pairs_map(ft@),
                nft: crate::table::pairs_map(nft@),
                owner: owner_id@,
            }),
    {
        Contract {
            phone_to_user: Table::from_pairs(registry),
            near_trusts: Table::from_pairs(native),
            ft_trusts: Table::from_pairs(ft),
            nft_trusts: Table::from_pairs(nft),
            owner_id,
        }
    }

    /// The raw binding list, for a host that persists it.
    pub fn registry_entries(&self) -> (r: &Vec<(String, String)>)
        requires
            self.wf(),
        ensures
            crate::table::entries_map(r@) == self@.registry,
    {
        self.phone_to_user.entries()
    }

    /// The raw pending native lists, for a host that persists them.
    pub fn native_entries(&self) -> (r: &Vec<(String, Vec<NearTrustTransaction>)>)
        requires
            self.wf(),
        ensures
            crate::table::entries_map(r@) == self@.native,
    {
        self.near_trusts.entries()
    }

    /// The raw pending fungible-token lists, for a host that persists them.
    pub fn ft_entries(&self) -> (r: &Vec<(String, Vec<FtTrustTransaction>)>)
        requires
            self.wf(),
        ensures
            crate::table::entries_map(r@) == self@.ft,
    {
        self.ft_trusts.entries()
    }

    /// The raw pending non-fungible-token lists, for a host that persists
    /// them.
    pub fn nft_entries(&self) -> (r: &Vec<(String, Vec<NftTrustTransaction>)>)
        requires
            self.wf(),
        ensures
            crate::table::entries_map(r@) == self@.nft,
    {
        self.nft_trusts.entries()
    }

    /// The account currently holding the owner role.
    pub fn owner(&self) -> (r: &String)
        ensures
            r@ == self@.owner,
    {
        &self.owner_id
    }

    /// Bind `phone` to `account_id` and settle everything owed to it.
    /// Owner-only and confirmation-gated; fails without touching anything if
    /// the phone is already bound or if the pending native amounts do not
    /// fit. On success the three ledgers lose their lists for this phone and
    /// the returned transfers are exactly the settlement plan, in order.
    #[verifier::loop_isolation(false)]
    pub fn allocate_phone(
        &mut self,
        phone: String,
        account_id: String,
        caller: String,
        deposit: u128,
    ) -> (r: Result<Vec<OutboundTransfer>, ContractError>)
        requires
            old(self).wf(),
        ensures
            final(self).wf(),
            ({
                let (post, res) = allocate_spec(
                    old(self)@,
                    phone@,
                    account_id@,
                    caller@,
                    deposit,
                );
                &&& final(self)@ == post
                &&& match (r, res) {
                    (Ok(v), Ok(s)) => v.deep_view() == s,
                    (Err(e), Err(f)) => e == f,
                    _ => false,
                }
            }),
    {
        let ghost pre = self@;
        if !(caller == self.owner_id) {
            return Err(ContractError::Unauthorized);
        }
        if deposit != 1 {
            return Err(ContractError::MissingConfirmation);
        }
        if self.phone_to_user.get(&phone).is_some() {
            return Err(ContractError::AlreadyBound);
        }
        let mut out: Vec<OutboundTransfer> = Vec::new();

        match self.near_trusts.get(&phone) {
            Some(list) => {
                let ghost entries = list.deep_view();
                proof {
                    assert(entries == pre.native[phone@]);
                }
                let n = list.len();
                let mut balance: u128 = 0;
                let mut i: usize = 0;
                while i < n
                    invariant
                        i <= n,
                        n == list@.len(),
                        entries == list.deep_view(),
                        entries.len() == n,
                        balance as int == sum_amounts(entries.take(i as int)),
                    decreases n - i,
                {
                    proof {
                        assert(entries[i as int] == list@[i as int].deep_view());
                        lemma_sum_take_succ(entries, i as int);
                    }
                    balance = match balance.checked_add(list[i].amount) {
                        Some(b) => b,
                        None => {
                            proof {
                                lemma_sum_prefix_le(entries, i as int + 1);
                            }
                            return Err(ContractError::ArithmeticOverflow);
                        },
                    };
                    i += 1;
                }
                proof {
                    assert(entries.take(n as int) =~= entries);
                }
                out.push(OutboundTransfer::Native { receiver_id: account_id.clone(), amount: balance });
                proof {
                    assert(out.deep_view() =~= native_outbound(pre, phone@, account_id@));
                }
            },
            None => {
                proof {
                    assert(out.deep_view() =~= native_outbound(pre, phone@, account_id@));
                }
            },
        }
        let ghost part1 = native_outbound(pre, phone@, account_id@);

        match self.ft_trusts.get(&phone) {
            Some(list) => {
                let ghost entries = list.deep_view();
                proof {
                    assert(entries == pre.ft[phone@]);
                }
                let n = list.len();
                let mut i: usize = 0;
                while i < n
                    invariant
                        i <= n,
                        n == list@.len(),
                        entries == list.deep_view(),
                        entries.len() == n,
                        out.deep_view() == part1 + ft_outbound_of(
                            entries.take(i as int),
                            account_id@,
                        ),
                    decreases n - i,
                {
                    let t = &list[i];
                    let ghost out0 = out.deep_view();
                    out.push(OutboundTransfer::Ft {
                        ft_contract_id: t.ft_contract_id.clone(),
                        receiver_id: account_id.clone(),
                        amount: t.ft_amount,
                    });
                    proof {
                        assert(entries[i as int] == list@[i as int].deep_view());
                        assert(out.deep_view() =~= out0.push(
                            OutboundTransferView::Ft {
                                ft_contract_id: entries[i as int].ft_contract_id,
                                receiver_id: account_id@,
                                amount: entries[i as int].ft_amount,
                            },
                        ));
                        assert(out.deep_view() =~= part1 + ft_outbound_of(
                            entries.take(i as int + 1),
                            account_id@,
                        ));
                    }
                    i += 1;
                }
                proof {
                    assert(entries.take(n as int) =~= entries);
                }
            },
            None => {},
        }
        proof {
            assert(out.deep_view() =~= part1 + ft_outbound(pre, phone@, account_id@));
        }
        let ghost part2 = part1 + ft_outbound(pre, phone@, account_id@);

        match self.nft_trusts.get(&phone) {
            Some(list) => {
                let ghost entries = list.deep_view();
                proof {
                    assert(entries == pre.nft[phone@]);
                }
                let n = list.len();
                let mut i: usize = 0;
                while i < n
                    invariant
                        i <= n,
                        n == list@.len(),
                        entries == list.deep_view(),
                        entries.len() == n,
                        out.deep_view() == part2 + nft_outbound_of(
                            entries.take(i as int),
                            account_id@,
                        ),
                    decreases n - i,
                {
                    let t = &list[i];
                    let ghost out0 = out.deep_view();
                    out.push(OutboundTransfer::Nft {
                        nft_contract_id: t.nft_contract_id.clone(),
                        receiver_id: account_id.clone(),
                        token_id: t.nft_token_id.clone(),
                    });
                    proof {
                        assert(entries[i as int] == list@[i as int].deep_view());
                        assert(out.deep_view() =~= out0.push(
                            OutboundTransferView::Nft {
                                nft_contract_id: entries[i as int].nft_contract_id,
                                receiver_id: account_id@,
                                token_id: entries[i as int].nft_token_id,
                            },
                        ));
                        assert(out.deep_view() =~= part2 + nft_outbound_of(
                            entries.take(i as int + 1),
                            account_id@,
                        ));
                    }
                    i += 1;
                }
                proof {
                    assert(entries.take(n as int) =~= entries);
                }
            },
            None => {},
        }
        proof {
            assert(out.deep_view() =~= part2 + nft_outbound(pre, phone@, account_id@));
            assert(out.deep_view() =~= settlement_plan(pre, phone@, account_id@));
        }

        self.phone_to_user.set(phone.clone(), account_id.clone());
        self.near_trusts.remove(&phone);
        self.ft_trusts.remove(&phone);
        self.nft_trusts.remove(&phone);
        proof {
            let (post, res) = allocate_spec(pre, phone@, account_id@, caller@, deposit);
            assert(self@ =~= post);
        }
        Ok(out)
    }

    /// Drop the binding for `phone`. Confirmation-gated; only the account the
    /// phone is currently bound to may do this (self-service, not the owner).
    /// The escrow ledgers are not touched.
    pub fn delete_phone(&mut self, phone: String, caller: String, deposit: u128) -> (r: Result<
        (),
        ContractError,
    >)
        requires
            old(self).wf(),
        ensures
            final(self).wf(),
            ({
                let (post, res) = delete_spec(old(self)@, phone@, caller@, deposit);
                &&& final(self)@ == post
                &&& r == res
            }),
    {
        if deposit != 1 {
            return Err(ContractError::MissingConfirmation);
        }
        match self.phone_to_user.get(&phone) {
            None => Err(ContractError::NotBound),
            Some(account) => {
                if !(*account == caller) {
                    return Err(ContractError::Unauthorized);
                }
                self.phone_to_user.remove(&phone);
                proof {
                    let (post, res) = delete_spec(old(self)@, phone@, caller@, deposit);
                    assert(self@ =~= post);
                }
                Ok(())
            },
        }
    }

    /// A native deposit of `deposit` from `caller`, aimed at `phone`: if the
    /// phone is bound the value is forwarded at once and no ledger is
    /// touched; otherwise the deposit joins the phone's pending native list.
    pub fn send_near_to_phone(&mut self, phone: String, caller: String, deposit: u128) -> (r:
        Option<OutboundTransfer>)
        requires
            old(self).wf(),
        ensures
            final(self).wf(),
            ({
                let (post, res) = send_native_spec(old(self)@, phone@, caller@, deposit);
                &&& final(self)@ == post
                &&& match (r, res) {
                    (Some(t), Some(tv)) => t@ == tv,
                    (None, None) => true,
                    _ => false,
                }
            }),
    {
        let account = match self.phone_to_user.get(&phone) {
            Some(a) => Some(a.clone()),
            None => None,
        };
        match account {
            Some(a) => Some(OutboundTransfer::Native { receiver_id: a, amount: deposit }),
            None => {
                let mut list: Vec<NearTrustTransaction> = match self.near_trusts.get(&phone) {
                    Some(l) => clone_native_list(l),
                    None => Vec::new(),
                };
                let ghost list0 = list.deep_view();
                proof {
                    assert(list0 =~= (if old(self)@.native.dom().contains(phone@) {
                        old(self)@.native[phone@]
                    } else {
                        Seq::<NearTrustView>::empty()
                    }));
                }
                list.push(NearTrustTransaction { from_account_id: caller, amount: deposit });
                self.near_trusts.set(phone, list);
                proof {
                    let (post, res) = send_native_spec(old(self)@, phone@, caller@, deposit);
                    assert(final(self)@.native[phone@] =~= post.native[phone@]);
                    assert(final(self)@.native =~= post.native);
                    assert(final(self)@ =~= post);
                }
                None
            },
        }
    }

    /// Hand the owner role to `new_owner_id`; owner-only.
    pub fn change_owner(&mut self, new_owner_id: String, caller: String) -> (r: Result<
        (),
        ContractError,
    >)
        requires
            old(self).wf(),
        ensures
            final(self).wf(),
            caller@ != old(self)@.owner ==> r == Err::<(), ContractError>(
                ContractError::Unauthorized,
            ) && final(self)@ == old(self)@,
            caller@ == old(self)@.owner ==> r == Ok::<(), ContractError>(()) && final(self)@
                == (ContractView { owner: new_owner_id@, ..old(self)@ }),
    {
        if !(caller == self.owner_id) {
            return Err(ContractError::Unauthorized);
        }
        self.owner_id = new_owner_id;
        proof {
            assert(self@ =~= (ContractView { owner: self.owner_id@, ..old(self)@ }));
        }
        Ok(())
    }

    /// A non-fungible-token service (`token_contract`) reports that it now
    /// custodies `token_id` for the phone named in `msg`. Routed at once if
    /// the phone is bound, recorded as pending otherwise. The first result is
    /// the refuse flag, always false: the asset is always accepted.
    pub fn nft_on_transfer(
        &mut self,
        sender_id: String,
        previous_owner_id: String,
        token_id: String,
        msg: String,
        token_contract: String,
    ) -> (r: (bool, Option<OutboundTransfer>))
        requires
            old(self).wf(),
        ensures
            final(self).wf(),
            r.0 == false,
            ({
                let (post, res) = nft_notify_spec(
                    old(self)@,
                    previous_owner_id@,
                    token_id@,
                    msg@,
                    token_contract@,
                );
                &&& final(self)@ == post
                &&& match (r.1, res) {
                    (Some(t), Some(tv)) => t@ == tv,
                    (None, None) => true,
                    _ => false,
                }
            }),
    {
        let account = match self.phone_to_user.get(&msg) {
            Some(a) => Some(a.clone()),
            None => None,
        };
        match account {
            Some(a) => (
                false,
                Some(OutboundTransfer::Nft {
                    nft_contract_id: token_contract,
                    receiver_id: a,
                    token_id,
                }),
            ),
            None => {
                let mut list: Vec<NftTrustTransaction> = match self.nft_trusts.get(&msg) {
                    Some(l) => clone_nft_list(l),
                    None => Vec::new(),
                };
                let ghost list0 = list.deep_view();
                proof {
                    assert(list0 =~= (if old(self)@.nft.dom().contains(msg@) {
                        old(self)@.nft[msg@]
                    } else {
                        Seq::<NftTrustView>::empty()
                    }));
                }
                list.push(NftTrustTransaction {
                    from_account_id: previous_owner_id,
                    nft_contract_id: token_contract,
                    nft_token_id: token_id,
                });
                self.nft_trusts.set(msg, list);
                proof {
                    let (post, res) = nft_notify_spec(
                        old(self)@,
                        previous_owner_id@,
                        token_id@,
                        msg@,
                        token_contract@,
                    );
                    assert(final(self)@.nft[msg@] =~= post.nft[msg@]);
                    assert(final(self)@.nft =~= post.nft);
                    assert(final(self)@ =~= post);
                }
                (false, None)
            },
        }
    }

    /// A fungible-token service (`token_contract`) reports a deposit of
    /// `amount` from `sender_id` for the phone named in `msg`. Routed at once
    /// if the phone is bound, recorded as pending otherwise. The first result
    /// is the amount to refund, always zero: the deposit is fully accepted.
    pub fn ft_on_transfer(
        &mut self,
        sender_id: String,
        amount: u128,
        msg: String,
        token_contract: String,
    ) -> (r: (u128, Option<OutboundTransfer>))
        requires
            old(self).wf(),
        ensures
            final(self).wf(),
            r.0 == 0,
            ({
                let (post, res) = ft_notify_spec(
                    old(self)@,
                    sender_id@,
                    amount,
                    msg@,
                    token_contract@,
                );
                &&& final(self)@ == post
                &&& match (r.1, res) {
                    (Some(t), Some(tv)) => t@ == tv,
                    (None, None) => true,
                    _ => false,
                }
            }),
    {
        let account = match self.phone_to_user.get(&msg) {
            Some(a) => Some(a.clone()),
            None => None,
        };
        match account {
            Some(a) => (
                0,
                Some(OutboundTransfer::Ft {
                    ft_contract_id: token_contract,
                    receiver_id: a,
                    amount,
                }),
            ),
            None => {
                let mut list: Vec<FtTrustTransaction> = match self.ft_trusts.get(&msg) {
                    Some(l) => clone_ft_list(l),
                    None => Vec::new(),
                };
                let ghost list0 = list.deep_view();
                proof {
                    assert(list0 =~= (if old(self)@.ft.dom().contains(msg@) {
                        old(self)@.ft[msg@]
                    } else {
                        Seq::<FtTrustView>::empty()
                    }));
                }
                list.push(FtTrustTransaction {
                    from_account_id: sender_id,
                    ft_contract_id: token_contract,
                    ft_amount: amount,
                });
                self.ft_trusts.set(msg, list);
                proof {
                    let (post, res) = ft_notify_spec(
                        old(self)@,
                        sender_id@,
                        amount,
                        msg@,
                        token_contract@,
                    );
                    assert(final(self)@.ft[msg@] =~= post.ft[msg@]);
                    assert(final(self)@.ft =~= post.ft);
                    assert(final(self)@ =~= post);
                }
                (0, None)
            },
        }
    }

    /// The account `phone` is bound to, or none.
    pub fn get_account_id(&self, phone: String) -> (r: Option<String>)
        requires
            self.wf(),
        ensures
            match r {
                Some(a) => self@.registry.dom().contains(phone@) && a@ == self@.registry[phone@],
                None => !self@.registry.dom().contains(phone@),
            },
    {
        match self.phone_to_user.get(&phone) {
            Some(a) => Some(a.clone()),
            None => None,
        }
    }

    /// The pending native list for `phone`; none if no list was ever created.
    pub fn get_transfers(&self, phone: String) -> (r: Option<Vec<NearTrustTransaction>>)
        requires
            self.wf(),
        ensures
            match r {
                Some(v) => self@.native.dom().contains(phone@) && v.deep_view()
                    == self@.native[phone@],
                None => !self@.native.dom().contains(phone@),
            },
    {
        match self.near_trusts.get(&phone) {
            Some(l) => {
                let r = clone_native_list(l);
                proof {
                    assert(r.deep_view() =~= l.deep_view());
                }
                Some(r)
            },
            None => None,
        }
    }

    /// The pending fungible-token list for `phone`; none if no list was ever
    /// created.
    pub fn get_ft_transfers(&self, phone: String) -> (r: Option<Vec<FtTrustTransaction>>)
        requires
            self.wf(),
        ensures
            match r {
                Some(v) => self@.ft.dom().contains(phone@) && v.deep_view() == self@.ft[phone@],
                None => !self@.ft.dom().contains(phone@),
            },
    {
        match self.ft_trusts.get(&phone) {
            Some(l) => {
                let r = clone_ft_list(l);
                proof {
                    assert(r.deep_view() =~= l.deep_view());
                }
                Some(r)
            },
            None => None,
        }
    }

    /// The pending non-fungible-token list for `phone`; none if no list was
    /// ever created.
    pub fn get_nft_transfers(&self, phone: String) -> (r: Option<Vec<NftTrustTransaction>>)
        requires
            self.wf(),
        ensures
            match r {
                Some(v) => self@.nft.dom().contains(phone@) && v.deep_view() == self@.nft[phone@],
                None => !self@.nft.dom().contains(phone@),
            },
    {
        match self.nft_trusts.get(&phone) {
            Some(l) => {
                let r = clone_nft_list(l);
                proof {
                    assert(r.deep_view() =~= l.deep_view());
                }
                Some(r)
            },
            None => None,
        }
    }
}

} // verus!
