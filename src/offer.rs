//! The offer lifecycle: create (deposit into custody and record the terms),
//! close (the initiator takes the deposit back) and accept (the counterparty
//! pays and receives the deposit, both legs or neither).
use vstd::prelude::*;
use crate::address::{Address, authority_of, offer_address_of, custodial_of, escrow_authority, offer_address, custodial_address};
use crate::ledger::{Ledger, LedgerError, TokenAccount, unique_addresses, contains, account, holds, transfer_outcome, transferred};

verus! {

/// The terms of one open offer.
#[derive(Clone, Copy, Debug, PartialEq, Eq)]
pub struct OfferDetails {
    pub party_one: Address,
    pub party_two: Address,
    /// The account of party one that receives the asked tokens.
    pub receive_account: Address,
    /// The mint that party one deposits.
    pub offer_token: Address,
    pub offer_amount: u64,
    /// The mint that party two pays in.
    pub ask_token: Address,
    pub ask_amount: u64,
}

/// The rule that an instruction broke.
#[derive(Clone, Copy, Debug, PartialEq, Eq)]
pub enum EscrowError {
    /// A token account does not hold enough to send.
    InsufficientBalance,
    /// Party one's amount is zero.
    ZeroSendAmount,
    /// Party two's amount is zero.
    ZeroAskAmount,
    /// Both parties are the same.
    InvalidPartyTwo,
    /// A mint given for either token differs from the offer's.
    InvalidMintAccount,
    /// The receive account given for party one differs from the offer's.
    IncorrectReceiveAccount,
}

/// Why an instruction failed; a failed instruction changes nothing.
#[derive(Clone, Copy, Debug, PartialEq, Eq)]
pub enum InstructionError {
    Escrow(EscrowError),
    Ledger(LedgerError),
    /// An offer is already open for this pair of parties.
    OfferExists,
    /// No offer is open for this pair of parties.
    OfferNotFound,
    /// A token account given does not exist, or has another owner or mint.
    AccountMismatch,
    /// The address derivation found no viable bump.
    NoProgramAddress,
}

/// The accounts of a create instruction; `party_one` is its signer.
#[derive(Clone, Copy, Debug, PartialEq, Eq)]
pub struct CreateOffer {
    pub party_one: Address,
    pub send_mint: Address,
    /// Party one's account that the deposit leaves.
    pub send_account: Address,
    pub receive_mint: Address,
    /// Party one's account that will receive the asked tokens.
    pub receive_account: Address,
}

/// The accounts of a close instruction; `party_one` is its signer.
#[derive(Clone, Copy, Debug, PartialEq, Eq)]
pub struct CloseOffer {
    pub party_one: Address,
    /// Party one's account that takes the deposit back.
    pub receive_account: Address,
}

/// The accounts of an accept instruction; `party_two` is its signer.
#[derive(Clone, Copy, Debug, PartialEq, Eq)]
pub struct AcceptOffer {
    pub party_one: Address,
    pub party_two: Address,
    /// The mint of the deposit, as the caller names it.
    pub party_one_mint: Address,
    /// The mint of the payment, as the caller names it.
    pub party_two_mint: Address,
    pub party_one_receive: Address,
    pub party_two_send: Address,
    pub party_two_receive: Address,
}

/// An offer record and the derived address it is stored at.
#[derive(Clone, Copy, Debug, PartialEq, Eq)]
pub struct OfferRecord {
    pub address: Address,
    pub details: OfferDetails,
}

/// The state of one escrow program: its id, the token ledger and the open offers.
#[derive(Debug)]
pub struct Escrow {
    program_id: Address,
    ledger: Ledger,
    offers: Vec<OfferRecord>,
}

pub open spec fn unique_offers(s: Seq<OfferRecord>) -> bool {
    forall|i: int, j: int| 0 <= i < s.len() && 0 <= j < s.len() && i != j ==> s[i].address != s[j].address
}

pub open spec fn has_offer(s: Seq<OfferRecord>, a: Address) -> bool {
    exists|i: int| 0 <= i < s.len() && s[i].address == a
}

pub open spec fn offer_pos(s: Seq<OfferRecord>, a: Address) -> int {
    choose|i: int| 0 <= i < s.len() && s[i].address == a
}

pub open spec fn offer_at(s: Seq<OfferRecord>, a: Address) -> OfferDetails {
    s[offer_pos(s, a)].details
}

/// An open offer's record: both amounts positive, two distinct parties, and
/// stored at the address derived from the pair.
pub open spec fn record_ok(program: Address, r: OfferRecord) -> bool {
    &&& r.details.offer_amount > 0
    &&& r.details.ask_amount > 0
    &&& r.details.party_one != r.details.party_two
    &&& offer_address_of(program, r.details.party_one, r.details.party_two) == Some(r.address)
}

/// The open offers of a program: distinct addresses, each record well formed.
pub open spec fn records_ok(program: Address, s: Seq<OfferRecord>) -> bool {
    &&& unique_offers(s)
    &&& forall|i: int| 0 <= i < s.len() ==> record_ok(program, #[trigger] s[i])
}

/// Removing one record keeps the rest well formed.
pub proof fn lemma_remove_record(program: Address, s: Seq<OfferRecord>, i: int)
    requires
        records_ok(program, s),
        0 <= i < s.len(),
    ensures
        records_ok(program, s.remove(i)),
{
    let t = s.remove(i);
    assert forall|x: int| 0 <= x < t.len() implies t[x] == s[if x < i { x } else { x + 1 }] by {}
    assert forall|x: int, y: int| 0 <= x < t.len() && 0 <= y < t.len() && x != y
        implies t[x].address != t[y].address by {
        assert(t[x] == s[if x < i { x } else { x + 1 }]);
        assert(t[y] == s[if y < i { y } else { y + 1 }]);
    }
    assert forall|x: int| 0 <= x < t.len() implies record_ok(program, #[trigger] t[x]) by {
        assert(t[x] == s[if x < i { x } else { x + 1 }]);
    }
}

/// The accounts as they stand once the custodial account `temp` exists:
/// opened empty, for `mint` under `authority`, where it did not.
pub open spec fn with_custody(s: Seq<TokenAccount>, temp: Address, mint: Address, authority: Address) -> Seq<TokenAccount> {
    if contains(s, temp) {
        s
    } else {
        s.push(TokenAccount { address: temp, mint, owner: authority, amount: 0 })
    }
}

/// What a create instruction returns, checks in order.
pub open spec fn create_outcome(
    program: Address,
    accounts: Seq<TokenAccount>,
    offers: Seq<OfferRecord>,
    ix: CreateOffer,
    send_amt: u64,
    ask_amt: u64,
    party_two: Address,
) -> Result<(), InstructionError> {
    if send_amt == 0 {
        Err(InstructionError::Escrow(EscrowError::ZeroSendAmount))
    } else if ask_amt == 0 {
        Err(InstructionError::Escrow(EscrowError::ZeroAskAmount))
    } else if ix.party_one == party_two {
        Err(InstructionError::Escrow(EscrowError::InvalidPartyTwo))
    } else if authority_of(program) is None || offer_address_of(program, ix.party_one, party_two) is None
        || custodial_of(authority_of(program)->0, ix.send_mint) is None {
        Err(InstructionError::NoProgramAddress)
    } else if !holds(accounts, ix.send_account, ix.party_one, ix.send_mint)
        || !holds(accounts, ix.receive_account, ix.party_one, ix.receive_mint) {
        Err(InstructionError::AccountMismatch)
    } else if account(accounts, ix.send_account).amount < send_amt {
        Err(InstructionError::Escrow(EscrowError::InsufficientBalance))
    } else {
        let auth = authority_of(program)->0;
        let temp = custodial_of(auth, ix.send_mint)->0;
        if has_offer(offers, offer_address_of(program, ix.party_one, party_two)->0) {
            Err(InstructionError::OfferExists)
        } else if contains(accounts, temp) && !holds(accounts, temp, auth, ix.send_mint) {
            Err(InstructionError::AccountMismatch)
        } else {
            match transfer_outcome(with_custody(accounts, temp, ix.send_mint, auth), send_amt, ix.send_account, temp, ix.party_one) {
                Err(e) => Err(InstructionError::Ledger(e)),
                Ok(()) => Ok(()),
            }
        }
    }
}

/// The accounts after a successful create: the deposit sits in custody.
pub open spec fn create_accounts(program: Address, accounts: Seq<TokenAccount>, ix: CreateOffer, send_amt: u64) -> Seq<TokenAccount> {
    let auth = authority_of(program)->0;
    let temp = custodial_of(auth, ix.send_mint)->0;
    transferred(with_custody(accounts, temp, ix.send_mint, auth), send_amt, ix.send_account, temp)
}

/// The record that a successful create stores.
pub open spec fn created_record(program: Address, ix: CreateOffer, send_amt: u64, ask_amt: u64, party_two: Address) -> OfferRecord {
    OfferRecord {
        address: offer_address_of(program, ix.party_one, party_two)->0,
        details: OfferDetails {
            party_one: ix.party_one,
            party_two,
            receive_account: ix.receive_account,
            offer_token: ix.send_mint,
            offer_amount: send_amt,
            ask_token: ix.receive_mint,
            ask_amount: ask_amt,
        },
    }
}

/// What a close instruction for the offer to `party_two` returns, checks in order.
pub open spec fn close_outcome(
    program: Address,
    accounts: Seq<TokenAccount>,
    offers: Seq<OfferRecord>,
    ix: CloseOffer,
    party_two: Address,
) -> Result<(), InstructionError> {
    if authority_of(program) is None || offer_address_of(program, ix.party_one, party_two) is None {
        Err(InstructionError::NoProgramAddress)
    } else if !has_offer(offers, offer_address_of(program, ix.party_one, party_two)->0) {
        Err(InstructionError::OfferNotFound)
    } else {
        let auth = authority_of(program)->0;
        let d = offer_at(offers, offer_address_of(program, ix.party_one, party_two)->0);
        let temp = custodial_of(auth, d.offer_token)->0;
        if custodial_of(auth, d.offer_token) is None {
            Err(InstructionError::NoProgramAddress)
        } else if !holds(accounts, temp, auth, d.offer_token) || !holds(accounts, ix.receive_account, ix.party_one, d.offer_token) {
            Err(InstructionError::AccountMismatch)
        } else {
            match transfer_outcome(accounts, d.offer_amount, temp, ix.receive_account, auth) {
                Err(e) => Err(InstructionError::Ledger(e)),
                Ok(()) => Ok(()),
            }
        }
    }
}

/// The accounts after a successful close: the deposit is back with party one.
pub open spec fn close_accounts(program: Address, accounts: Seq<TokenAccount>, offers: Seq<OfferRecord>, ix: CloseOffer, party_two: Address) -> Seq<TokenAccount> {
    let auth = authority_of(program)->0;
    let d = offer_at(offers, offer_address_of(program, ix.party_one, party_two)->0);
    transferred(accounts, d.offer_amount, custodial_of(auth, d.offer_token)->0, ix.receive_account)
}

/// What an accept instruction returns, checks in order.
pub open spec fn accept_outcome(
    program: Address,
    accounts: Seq<TokenAccount>,
    offers: Seq<OfferRecord>,
    ix: AcceptOffer,
) -> Result<(), InstructionError> {
    if authority_of(program) is None || offer_address_of(program, ix.party_one, ix.party_two) is None {
        Err(InstructionError::NoProgramAddress)
    } else if !has_offer(offers, offer_address_of(program, ix.party_one, ix.party_two)->0) {
        Err(InstructionError::OfferNotFound)
    } else {
        let auth = authority_of(program)->0;
        let d = offer_at(offers, offer_address_of(program, ix.party_one, ix.party_two)->0);
        let temp = custodial_of(auth, d.offer_token)->0;
        if custodial_of(auth, d.offer_token) is None {
            Err(InstructionError::NoProgramAddress)
        } else if ix.party_one_mint != d.offer_token || ix.party_two_mint != d.ask_token {
            Err(InstructionError::Escrow(EscrowError::InvalidMintAccount))
        } else if ix.party_one_receive != d.receive_account {
            Err(InstructionError::Escrow(EscrowError::IncorrectReceiveAccount))
        } else if !holds(accounts, temp, auth, d.offer_token)
            || !holds(accounts, ix.party_one_receive, ix.party_one, d.ask_token)
            || !holds(accounts, ix.party_two_send, ix.party_two, d.ask_token)
            || !holds(accounts, ix.party_two_receive, ix.party_two, d.offer_token) {
            Err(InstructionError::AccountMismatch)
        } else if account(accounts, ix.party_two_send).amount < d.ask_amount {
            Err(InstructionError::Escrow(EscrowError::InsufficientBalance))
        } else {
            match transfer_outcome(accounts, d.ask_amount, ix.party_two_send, ix.party_one_receive, ix.party_two) {
                Err(e) => Err(InstructionError::Ledger(e)),
                Ok(()) => {
                    let paid = transferred(accounts, d.ask_amount, ix.party_two_send, ix.party_one_receive);
                    match transfer_outcome(paid, d.offer_amount, temp, ix.party_two_receive, auth) {
                        Err(e) => Err(InstructionError::Ledger(e)),
                        Ok(()) => Ok(()),
                    }
                },
            }
        }
    }
}

/// The accounts after a successful accept: party two has paid party one,
/// and the deposit has gone from custody to party two.
pub open spec fn accept_accounts(program: Address, accounts: Seq<TokenAccount>, offers: Seq<OfferRecord>, ix: AcceptOffer) -> Seq<TokenAccount> {
    let auth = authority_of(program)->0;
    let d = offer_at(offers, offer_address_of(program, ix.party_one, ix.party_two)->0);
    let paid = transferred(accounts, d.ask_amount, ix.party_two_send, ix.party_one_receive);
    transferred(paid, d.offer_amount, custodial_of(auth, d.offer_token)->0, ix.party_two_receive)
}

/// The offers left once the one stored at `a` is resolved.
pub open spec fn without_offer(s: Seq<OfferRecord>, a: Address) -> Seq<OfferRecord> {
    s.remove(offer_pos(s, a))
}

impl Escrow {
    /// The program's id.
    pub closed spec fn program(&self) -> Address {
        self.program_id
    }

    /// The token accounts of the ledger.
    pub closed spec fn accounts(&self) -> Seq<TokenAccount> {
        self.ledger.accounts@
    }

    /// The open offers.
    pub closed spec fn open_offers(&self) -> Seq<OfferRecord> {
        self.offers@
    }

    pub open spec fn wf(&self) -> bool {
        unique_addresses(self.accounts()) && records_ok(self.program(), self.open_offers())
    }

    pub fn program_id(&self) -> (r: Address)
        ensures
            r == self.program(),
    {
        self.program_id
    }

    /// The ledger, to read.
    pub fn ledger(&self) -> (r: &Ledger)
        requires
            self.wf(),
        ensures
            r.wf(),
            r.accounts@ == self.accounts(),
    {
        &self.ledger
    }

    /// The open offers, to read.
    pub fn offers(&self) -> (r: &Vec<OfferRecord>)
        ensures
            r@ == self.open_offers(),
    {
        &self.offers
    }

    /// A program with the given ledger and no open offer.
    pub fn new(program_id: Address, ledger: Ledger) -> (r: Escrow)
        requires
            ledger.wf(),
        ensures
            r.wf(),
            r.program() == program_id,
            r.accounts() == ledger.accounts@,
            r.open_offers() == Seq::<OfferRecord>::empty(),
    {
        Escrow { program_id, ledger, offers: Vec::new() }
    }

    /// Finds the open offer stored at `a`.
    pub fn find_offer(&self, a: &Address) -> (r: Option<usize>)
        requires
            unique_offers(self.open_offers()),
        ensures
            r is None <==> !has_offer(self.open_offers(), *a),
            r matches Some(i) ==> i == offer_pos(self.open_offers(), *a) && i < self.open_offers().len(),
    {
        let mut i: usize = 0;
        while i < self.offers.len()
            invariant
                unique_offers(self.offers@),
                i <= self.offers@.len(),
                forall|j: int| 0 <= j < i ==> self.offers@[j].address != *a,
            decreases self.offers@.len() - i,
        {
            if self.offers[i].address.same(a) {
                assert(has_offer(self.offers@, *a));
                return Some(i);
            }
            i = i + 1;
        }
        None
    }

    /// The terms of the offer open between `party_one` and `party_two`, if any.
    pub fn get_offer(&self, party_one: &Address, party_two: &Address) -> (r: Option<OfferDetails>)
        requires
            self.wf(),
        ensures
            r is Some <==> (offer_address_of(self.program(), *party_one, *party_two) matches Some(a)
                && has_offer(self.open_offers(), a)),
            r matches Some(d) ==> d == offer_at(self.open_offers(), offer_address_of(self.program(), *party_one, *party_two)->0),
    {
        let a = match offer_address(&self.program_id, party_one, party_two) {
            Some(a) => a,
            None => return None,
        };
        match self.find_offer(&a) {
            Some(i) => Some(self.offers[i].details),
            None => None,
        }
    }

    /// Party one deposits `send_amt` of `send_mint` into custody and opens an
    /// offer to `party_two` asking `ask_amt` of `receive_mint`.
    pub fn create_offer(&mut self, ix: CreateOffer, send_amt: u64, ask_amt: u64, party_two: Address) -> (r: Result<(), InstructionError>)
        requires
            old(self).wf(),
        ensures
            final(self).wf(),
            final(self).program() == old(self).program(),
            r == create_outcome(old(self).program(), old(self).accounts(), old(self).open_offers(), ix, send_amt, ask_amt, party_two),
            r is Ok ==> final(self).accounts() == create_accounts(old(self).program(), old(self).accounts(), ix, send_amt)
                && final(self).open_offers() == old(self).open_offers().push(created_record(old(self).program(), ix, send_amt, ask_amt, party_two)),
            r is Err ==> final(self).accounts() == old(self).accounts() && final(self).open_offers() == old(self).open_offers(),
    {
        if send_amt == 0 {
            return Err(InstructionError::Escrow(EscrowError::ZeroSendAmount));
        }
        if ask_amt == 0 {
            return Err(InstructionError::Escrow(EscrowError::ZeroAskAmount));
        }
        if ix.party_one.same(&party_two) {
            return Err(InstructionError::Escrow(EscrowError::InvalidPartyTwo));
        }
        let auth = match escrow_authority(&self.program_id) {
            Some(a) => a,
            None => return Err(InstructionError::NoProgramAddress),
        };
        let oaddr = match offer_address(&self.program_id, &ix.party_one, &party_two) {
            Some(a) => a,
            None => return Err(InstructionError::NoProgramAddress),
        };
        let temp = match custodial_address(&auth, &ix.send_mint) {
            Some(a) => a,
            None => return Err(InstructionError::NoProgramAddress),
        };
        if !self.ledger.holds(&ix.send_account, &ix.party_one, &ix.send_mint)
            || !self.ledger.holds(&ix.receive_account, &ix.party_one, &ix.receive_mint) {
            return Err(InstructionError::AccountMismatch);
        }
        match self.ledger.balance(&ix.send_account) {
            Some(b) => {
                if b < send_amt {
                    return Err(InstructionError::Escrow(EscrowError::InsufficientBalance));
                }
            },
            None => return Err(InstructionError::AccountMismatch),
        }
        if self.find_offer(&oaddr).is_some() {
            return Err(InstructionError::OfferExists);
        }
        let saved = self.ledger.snapshot();
        if self.ledger.find(&temp).is_some() {
            if !self.ledger.holds(&temp, &auth, &ix.send_mint) {
                return Err(InstructionError::AccountMismatch);
            }
        } else {
            match self.ledger.open_account(temp, ix.send_mint, auth, 0) {
                Ok(()) => {},
                Err(e) => return Err(InstructionError::Ledger(e)),
            }
        }
        match self.ledger.transfer(send_amt, &ix.send_account, &temp, &ix.party_one) {
            Ok(()) => {},
            Err(e) => {
                self.ledger = saved;
                return Err(InstructionError::Ledger(e));
            },
        }
        let rec = OfferRecord {
            address: oaddr,
            details: OfferDetails {
                party_one: ix.party_one,
                party_two,
                receive_account: ix.receive_account,
                offer_token: ix.send_mint,
                offer_amount: send_amt,
                ask_token: ix.receive_mint,
                ask_amount: ask_amt,
            },
        };
        self.offers.push(rec);
        Ok(())
    }
    /// Party one cancels the offer to `party_two`: the deposit goes back to
    /// `ix.receive_account` under the escrow authority, and the record is removed.
    pub fn close_offer(&mut self, ix: CloseOffer, party_two: Address) -> (r: Result<(), InstructionError>)
        requires
            old(self).wf(),
        ensures
            final(self).wf(),
            final(self).program() == old(self).program(),
            r == close_outcome(old(self).program(), old(self).accounts(), old(self).open_offers(), ix, party_two),
            r is Ok ==> final(self).accounts() == close_accounts(old(self).program(), old(self).accounts(), old(self).open_offers(), ix, party_two)
                && final(self).open_offers() == without_offer(old(self).open_offers(), offer_address_of(old(self).program(), ix.party_one, party_two)->0),
            r is Err ==> final(self).accounts() == old(self).accounts() && final(self).open_offers() == old(self).open_offers(),
    {
        let auth = match escrow_authority(&self.program_id) {
            Some(a) => a,
            None => return Err(InstructionError::NoProgramAddress),
        };
        let oaddr = match offer_address(&self.program_id, &ix.party_one, &party_two) {
            Some(a) => a,
            None => return Err(InstructionError::NoProgramAddress),
        };
        let i = match self.find_offer(&oaddr) {
            Some(i) => i,
            None => return Err(InstructionError::OfferNotFound),
        };
        let d = self.offers[i].details;
        let temp = match custodial_address(&auth, &d.offer_token) {
            Some(a) => a,
            None => return Err(InstructionError::NoProgramAddress),
        };
        if !self.ledger.holds(&temp, &auth, &d.offer_token)
            || !self.ledger.holds(&ix.receive_account, &ix.party_one, &d.offer_token) {
            return Err(InstructionError::AccountMismatch);
        }
        match self.ledger.transfer(d.offer_amount, &temp, &ix.receive_account, &auth) {
            Ok(()) => {},
            Err(e) => return Err(InstructionError::Ledger(e)),
        }
        proof {
            lemma_remove_record(self.program_id, self.offers@, i as int);
        }
        self.offers.remove(i);
        Ok(())
    }

    /// Party two takes the offer from `ix.party_one`: it pays the asked amount
    /// to party one's recorded receive account, and the deposit goes from
    /// custody to party two. Both legs happen or neither does; the record is removed.
    pub fn accept_offer(&mut self, ix: AcceptOffer) -> (r: Result<(), InstructionError>)
        requires
            old(self).wf(),
        ensures
            final(self).wf(),
            final(self).program() == old(self).program(),
            r == accept_outcome(old(self).program(), old(self).accounts(), old(self).open_offers(), ix),
            r is Ok ==> final(self).accounts() == accept_accounts(old(self).program(), old(self).accounts(), old(self).open_offers(), ix)
                && final(self).open_offers() == without_offer(old(self).open_offers(), offer_address_of(old(self).program(), ix.party_one, ix.party_two)->0),
            r is Err ==> final(self).accounts() == old(self).accounts() && final(self).open_offers() == old(self).open_offers(),
    {
        let auth = match escrow_authority(&self.program_id) {
            Some(a) => a,
            None => return Err(InstructionError::NoProgramAddress),
        };
        let oaddr = match offer_address(&self.program_id, &ix.party_one, &ix.party_two) {
            Some(a) => a,
            None => return Err(InstructionError::NoProgramAddress),
        };
        let i = match self.find_offer(&oaddr) {
            Some(i) => i,
            None => return Err(InstructionError::OfferNotFound),
        };
        let d = self.offers[i].details;
        let temp = match custodial_address(&auth, &d.offer_token) {
            Some(a) => a,
            None => return Err(InstructionError::NoProgramAddress),
        };
        if !ix.party_one_mint.same(&d.offer_token) || !ix.party_two_mint.same(&d.ask_token) {
            return Err(InstructionError::Escrow(EscrowError::InvalidMintAccount));
        }
        if !ix.party_one_receive.same(&d.receive_account) {
            return Err(InstructionError::Escrow(EscrowError::IncorrectReceiveAccount));
        }
        if !self.ledger.holds(&temp, &auth, &d.offer_token)
            || !self.ledger.holds(&ix.party_one_receive, &ix.party_one, &d.ask_token)
            || !self.ledger.holds(&ix.party_two_send, &ix.party_two, &d.ask_token)
            || !self.ledger.holds(&ix.party_two_receive, &ix.party_two, &d.offer_token) {
            return Err(InstructionError::AccountMismatch);
        }
        match self.ledger.balance(&ix.party_two_send) {
            Some(b) => {
                if b < d.ask_amount {
                    return Err(InstructionError::Escrow(EscrowError::InsufficientBalance));
                }
            },
            None => return Err(InstructionError::AccountMismatch),
        }
        let saved = self.ledger.snapshot();
        match self.ledger.transfer(d.ask_amount, &ix.party_two_send, &ix.party_one_receive, &ix.party_two) {
            Ok(()) => {},
            Err(e) => return Err(InstructionError::Ledger(e)),
        }
        match self.ledger.transfer(d.offer_amount, &temp, &ix.party_two_receive, &auth) {
            Ok(()) => {},
            Err(e) => {
                self.ledger = saved;
                return Err(InstructionError::Ledger(e));
            },
        }
        proof {
            lemma_remove_record(self.program_id, self.offers@, i as int);
        }
        self.offers.remove(i);
        Ok(())
    }
}

} // verus!
