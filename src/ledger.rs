//! The token ledger the escrow moves funds through: accounts with a unique
//! address, a mint, an owner and a balance, and an all-or-nothing transfer.
use vstd::prelude::*;
use crate::address::Address;

verus! {

/// A token account: `amount` tokens of `mint`, movable only by `owner`.
#[derive(Clone, Copy, Debug, PartialEq, Eq)]
pub struct TokenAccount {
    pub address: Address,
    pub mint: Address,
    pub owner: Address,
    pub amount: u64,
}

/// Why a ledger operation failed; a failed operation changes nothing.
#[derive(Clone, Copy, Debug, PartialEq, Eq)]
pub enum LedgerError {
    AccountNotFound,
    AccountExists,
    OwnerMismatch,
    MintMismatch,
    InsufficientFunds,
    Overflow,
}

/// The set of token accounts, kept as a sequence with distinct addresses.
#[derive(Debug)]
pub struct Ledger {
    pub accounts: Vec<TokenAccount>,
}

pub open spec fn unique_addresses(s: Seq<TokenAccount>) -> bool {
    forall|i: int, j: int|
        0 <= i < s.len() && 0 <= j < s.len() && i != j ==> s[i].address != s[j].address
}

pub open spec fn contains(s: Seq<TokenAccount>, a: Address) -> bool {
    exists|i: int| 0 <= i < s.len() && s[i].address == a
}

/// Where the account at `a` stands in `s`.
pub open spec fn pos(s: Seq<TokenAccount>, a: Address) -> int {
    choose|i: int| 0 <= i < s.len() && s[i].address == a
}

/// The account at `a` (meaningful where `contains(s, a)`).
pub open spec fn account(s: Seq<TokenAccount>, a: Address) -> TokenAccount {
    s[pos(s, a)]
}

/// The account at `a` exists, is owned by `owner` and holds `mint`.
pub open spec fn holds(s: Seq<TokenAccount>, a: Address, owner: Address, mint: Address) -> bool {
    contains(s, a) && account(s, a).owner == owner && account(s, a).mint == mint
}

/// `s` with the balance of the account at `a` set to `v`.
pub open spec fn set_amount(s: Seq<TokenAccount>, a: Address, v: u64) -> Seq<TokenAccount> {
    s.update(pos(s, a), TokenAccount { amount: v, ..account(s, a) })
}

/// The total balance of `mint` over the accounts of `s` whose owner is in
/// `owners` (every account, where `owners` is the full set).
pub open spec fn supply(s: Seq<TokenAccount>, mint: Address, owners: Set<Address>) -> int
    decreases s.len(),
{
    if s.len() == 0 {
        0
    } else {
        supply(s.drop_last(), mint, owners) + share(s.last(), mint, owners)
    }
}

/// What a transfer of `amount` from `from` to `to` signed by `authority` returns.
pub open spec fn transfer_outcome(
    s: Seq<TokenAccount>,
    amount: u64,
    from: Address,
    to: Address,
    authority: Address,
) -> Result<(), LedgerError> {
    if !contains(s, from) || !contains(s, to) {
        Err(LedgerError::AccountNotFound)
    } else if account(s, from).owner != authority {
        Err(LedgerError::OwnerMismatch)
    } else if account(s, from).mint != account(s, to).mint {
        Err(LedgerError::MintMismatch)
    } else if account(s, from).amount < amount {
        Err(LedgerError::InsufficientFunds)
    } else if from != to && account(s, to).amount + amount > u64::MAX {
        Err(LedgerError::Overflow)
    } else {
        Ok(())
    }
}

/// The accounts after a successful transfer: `amount` leaves `from` and
/// arrives at `to`; a transfer to the same account changes nothing.
pub open spec fn transferred(s: Seq<TokenAccount>, amount: u64, from: Address, to: Address) -> Seq<TokenAccount> {
    if from == to {
        s
    } else {
        let s1 = set_amount(s, from, (account(s, from).amount - amount) as u64);
        set_amount(s1, to, (account(s, to).amount + amount) as u64)
    }
}

/// In a sequence with distinct addresses, `pos` finds the one index that holds `a`.
pub proof fn lemma_pos_unique(s: Seq<TokenAccount>, a: Address, i: int)
    requires
        unique_addresses(s),
        0 <= i < s.len(),
        s[i].address == a,
    ensures
        pos(s, a) == i,
        contains(s, a),
{
}

/// What one account adds to the supply of `mint` among `owners`.
pub open spec fn share(x: TokenAccount, mint: Address, owners: Set<Address>) -> int {
    if x.mint == mint && owners.contains(x.owner) { x.amount as int } else { 0 }
}

/// Replacing one account changes the supply by the difference of their shares.
pub proof fn lemma_supply_update(s: Seq<TokenAccount>, i: int, x: TokenAccount, mint: Address, owners: Set<Address>)
    requires
        0 <= i < s.len(),
    ensures
        supply(s.update(i, x), mint, owners) == supply(s, mint, owners) - share(s[i], mint, owners) + share(x, mint, owners),
    decreases s.len(),
{
    let t = s.update(i, x);
    if i == s.len() - 1 {
        assert(t.drop_last() =~= s.drop_last());
    } else {
        assert(t.drop_last() =~= s.drop_last().update(i, x));
        lemma_supply_update(s.drop_last(), i, x, mint, owners);
    }
}

/// Adding an account adds its share to the supply.
pub proof fn lemma_supply_push(s: Seq<TokenAccount>, x: TokenAccount, mint: Address, owners: Set<Address>)
    ensures
        supply(s.push(x), mint, owners) == supply(s, mint, owners) + share(x, mint, owners),
{
    assert(s.push(x).drop_last() =~= s);
}

/// A transfer keeps every account where it stands, under its address, owner and mint.
pub proof fn lemma_transferred_addresses(s: Seq<TokenAccount>, amount: u64, from: Address, to: Address, authority: Address)
    requires
        unique_addresses(s),
        transfer_outcome(s, amount, from, to, authority) is Ok,
    ensures
        transferred(s, amount, from, to).len() == s.len(),
        forall|i: int| 0 <= i < s.len() ==> #[trigger] transferred(s, amount, from, to)[i].address == s[i].address,
        forall|i: int| 0 <= i < s.len() ==> #[trigger] transferred(s, amount, from, to)[i].owner == s[i].owner
            && transferred(s, amount, from, to)[i].mint == s[i].mint,
        unique_addresses(transferred(s, amount, from, to)),
{
    if from != to {
        let pf = pos(s, from);
        let s1 = set_amount(s, from, (account(s, from).amount - amount) as u64);
        assert(0 <= pf < s.len());
        assert(s1.len() == s.len());
        assert(forall|i: int| 0 <= i < s.len() ==> #[trigger] s1[i].address == s[i].address);
        let pt = pos(s1, to);
        assert(s[pos(s, to)].address == to);
        assert(s1[pos(s, to)].address == to);
        assert(0 <= pt < s1.len());
    }
}

/// A successful transfer leaves the supply of every mint as it was, among any
/// set of owners that holds both accounts' owners or neither.
pub proof fn lemma_transfer_conserves(
    s: Seq<TokenAccount>,
    amount: u64,
    from: Address,
    to: Address,
    authority: Address,
    mint: Address,
    owners: Set<Address>,
)
    requires
        unique_addresses(s),
        transfer_outcome(s, amount, from, to, authority) is Ok,
        owners.contains(account(s, from).owner) == owners.contains(account(s, to).owner),
    ensures
        supply(transferred(s, amount, from, to), mint, owners) == supply(s, mint, owners),
{
    if from != to {
        let pf = pos(s, from);
        let pt = pos(s, to);
        let s1 = set_amount(s, from, (account(s, from).amount - amount) as u64);
        lemma_supply_update(s, pf, TokenAccount { amount: (account(s, from).amount - amount) as u64, ..account(s, from) }, mint, owners);
        assert(s1[pt].address == to);
        assert(unique_addresses(s1));
        lemma_pos_unique(s1, to, pt);
        assert(s1[pt] == s[pt]);
        lemma_supply_update(s1, pt, TokenAccount { amount: (account(s, to).amount + amount) as u64, ..account(s1, to) }, mint, owners);
    }
}

/// A transfer that succeeded can be sent back by the receiving account's
/// owner, and sending it back restores every account.
pub proof fn lemma_transfer_undo(s: Seq<TokenAccount>, amount: u64, from: Address, to: Address, auth_from: Address, auth_to: Address)
    requires
        unique_addresses(s),
        transfer_outcome(s, amount, from, to, auth_from) is Ok,
        account(s, to).owner == auth_to,
    ensures
        transfer_outcome(transferred(s, amount, from, to), amount, to, from, auth_to) is Ok,
        transferred(transferred(s, amount, from, to), amount, to, from) == s,
{
    lemma_transferred_addresses(s, amount, from, to, auth_from);
    let t = transferred(s, amount, from, to);
    let pf = pos(s, from);
    let pt = pos(s, to);
    assert(0 <= pf < s.len() && s[pf].address == from);
    assert(0 <= pt < s.len() && s[pt].address == to);
    assert(t[pf].address == from && t[pt].address == to);
    lemma_pos_unique(t, from, pf);
    lemma_pos_unique(t, to, pt);
    if from != to {
        let s1 = set_amount(s, from, (account(s, from).amount - amount) as u64);
        assert(s1[pt].address == to);
        assert(unique_addresses(s1));
        lemma_pos_unique(s1, to, pt);
        assert(t[pf] == TokenAccount { amount: (s[pf].amount - amount) as u64, ..s[pf] });
        assert(t[pt] == TokenAccount { amount: (s[pt].amount + amount) as u64, ..s[pt] });
        let u1 = set_amount(t, to, (account(t, to).amount - amount) as u64);
        assert(u1[pf].address == from);
        assert(unique_addresses(u1)) by {
            assert forall|i: int| 0 <= i < u1.len() implies #[trigger] u1[i].address == t[i].address by {}
        }
        lemma_pos_unique(u1, from, pf);
        let u = transferred(t, amount, to, from);
        assert(u =~= s);
    }
}

impl Ledger {
    pub open spec fn wf(&self) -> bool {
        unique_addresses(self.accounts@)
    }

    pub fn new() -> (r: Ledger)
        ensures
            r.wf(),
            r.accounts@ == Seq::<TokenAccount>::empty(),
    {
        Ledger { accounts: Vec::new() }
    }

    /// Finds the account at `a`.
    pub fn find(&self, a: &Address) -> (r: Option<usize>)
        requires
            self.wf(),
        ensures
            r is None <==> !contains(self.accounts@, *a),
            r matches Some(i) ==> i == pos(self.accounts@, *a) && i < self.accounts@.len()
                && self.accounts@[i as int].address == *a,
    {
        let mut i: usize = 0;
        while i < self.accounts.len()
            invariant
                self.wf(),
                i <= self.accounts@.len(),
                forall|j: int| 0 <= j < i ==> self.accounts@[j].address != *a,
            decreases self.accounts@.len() - i,
        {
            if self.accounts[i].address.same(a) {
                assert(contains(self.accounts@, *a));
                proof {
                    lemma_pos_unique(self.accounts@, *a, i as int);
                }
                return Some(i);
            }
            i = i + 1;
        }
        None
    }

    /// Whether the account at `a` exists, is owned by `owner` and holds `mint`.
    pub fn holds(&self, a: &Address, owner: &Address, mint: &Address) -> (r: bool)
        requires
            self.wf(),
        ensures
            r == holds(self.accounts@, *a, *owner, *mint),
    {
        match self.find(a) {
            Some(i) => self.accounts[i].owner.same(owner) && self.accounts[i].mint.same(mint),
            None => false,
        }
    }

    /// A copy of the ledger, to roll back to.
    pub fn snapshot(&self) -> (r: Ledger)
        requires
            self.wf(),
        ensures
            r.wf(),
            r.accounts@ == self.accounts@,
    {
        let mut v: Vec<TokenAccount> = Vec::new();
        let mut i: usize = 0;
        while i < self.accounts.len()
            invariant
                i <= self.accounts@.len(),
                v@ == self.accounts@.subrange(0, i as int),
            decreases self.accounts@.len() - i,
        {
            v.push(self.accounts[i]);
            i = i + 1;
            assert(v@ =~= self.accounts@.subrange(0, i as int));
        }
        assert(v@ =~= self.accounts@);
        Ledger { accounts: v }
    }

    /// The balance of the account at `a`, if there is one.
    pub fn balance(&self, a: &Address) -> (r: Option<u64>)
        requires
            self.wf(),
        ensures
            r is None <==> !contains(self.accounts@, *a),
            r matches Some(v) ==> v == account(self.accounts@, *a).amount,
    {
        match self.find(a) {
            Some(i) => Some(self.accounts[i].amount),
            None => None,
        }
    }

    /// Opens an account at `address` holding `amount` of `mint`, owned by `owner`.
    pub fn open_account(&mut self, address: Address, mint: Address, owner: Address, amount: u64) -> (r: Result<(), LedgerError>)
        requires
            old(self).wf(),
        ensures
            final(self).wf(),
            r is Err <==> contains(old(self).accounts@, address),
            r is Err ==> r == Err::<(), LedgerError>(LedgerError::AccountExists) && final(self).accounts@ == old(self).accounts@,
            r is Ok ==> final(self).accounts@ == old(self).accounts@.push(
                TokenAccount { address, mint, owner, amount },
            ),
    {
        if self.find(&address).is_some() {
            return Err(LedgerError::AccountExists);
        }
        self.accounts.push(TokenAccount { address, mint, owner, amount });
        Ok(())
    }

    /// Moves `amount` from `from` to `to` under `authority`, which must own
    /// `from`; both accounts must hold the same mint. All or nothing.
    pub fn transfer(&mut self, amount: u64, from: &Address, to: &Address, authority: &Address) -> (r: Result<(), LedgerError>)
        requires
            old(self).wf(),
        ensures
            final(self).wf(),
            r == transfer_outcome(old(self).accounts@, amount, *from, *to, *authority),
            r is Ok ==> final(self).accounts@ == transferred(old(self).accounts@, amount, *from, *to),
            r is Err ==> final(self).accounts@ == old(self).accounts@,
    {
        let fi = match self.find(from) {
            Some(i) => i,
            None => return Err(LedgerError::AccountNotFound),
        };
        let ti = match self.find(to) {
            Some(i) => i,
            None => return Err(LedgerError::AccountNotFound),
        };
        let src = self.accounts[fi];
        let dst = self.accounts[ti];
        if !src.owner.same(authority) {
            return Err(LedgerError::OwnerMismatch);
        }
        if !src.mint.same(&dst.mint) {
            return Err(LedgerError::MintMismatch);
        }
        if src.amount < amount {
            return Err(LedgerError::InsufficientFunds);
        }
        if fi == ti {
            return Ok(());
        }
        if dst.amount > u64::MAX - amount {
            return Err(LedgerError::Overflow);
        }
        let ghost s0 = self.accounts@;
        self.accounts.set(fi, TokenAccount { amount: src.amount - amount, ..src });
        proof {
            let s1 = self.accounts@;
            assert(s1 == set_amount(s0, *from, (src.amount - amount) as u64));
            assert(s1[ti as int].address == *to);
            lemma_pos_unique(s1, *to, ti as int);
        }
        self.accounts.set(ti, TokenAccount { amount: dst.amount + amount, ..dst });
        Ok(())
    }
}

} // verus!
