//! Properties that hold across the escrow's instructions.
use vstd::prelude::*;
use crate::address::{Address, authority_of, offer_address_of, custodial_of};
use crate::ledger::{
    TokenAccount, unique_addresses, contains, holds, supply, transfer_outcome, transferred,
    lemma_supply_push, lemma_transfer_conserves, lemma_transfer_undo, lemma_transferred_addresses, lemma_pos_unique, pos, set_amount, account,
};
use crate::offer::{
    AcceptOffer, CloseOffer, CreateOffer, EscrowError, InstructionError, OfferRecord, has_offer,
    offer_pos, unique_offers, records_ok, created_record, without_offer, with_custody, create_outcome, create_accounts,
    close_outcome, close_accounts, accept_outcome, accept_accounts,
};

verus! {

/// Opening the custodial account where it is missing keeps addresses distinct.
pub proof fn lemma_with_custody(accounts: Seq<TokenAccount>, temp: Address, mint: Address, authority: Address)
    requires
        unique_addresses(accounts),
    ensures
        unique_addresses(with_custody(accounts, temp, mint, authority)),
{
    let s = with_custody(accounts, temp, mint, authority);
    if !contains(accounts, temp) {
        assert forall|i: int, j: int| 0 <= i < s.len() && 0 <= j < s.len() && i != j
            implies s[i].address != s[j].address by {
            if i == accounts.len() {
                assert(accounts[j].address != temp);
            } else if j == accounts.len() {
                assert(accounts[i].address != temp);
            }
        }
    }
}

/// A successful create moves the deposit into custody and leaves the total of
/// every mint unchanged over the accounts of any set of owners that holds
/// party one and the escrow authority (the full set: the whole ledger).
pub proof fn create_conserves_supply(
    program: Address,
    accounts: Seq<TokenAccount>,
    offers: Seq<OfferRecord>,
    ix: CreateOffer,
    send_amt: u64,
    ask_amt: u64,
    party_two: Address,
    mint: Address,
    owners: Set<Address>,
)
    requires
        unique_addresses(accounts),
        create_outcome(program, accounts, offers, ix, send_amt, ask_amt, party_two) is Ok,
        owners.contains(ix.party_one),
        owners.contains(authority_of(program)->0),
    ensures
        supply(create_accounts(program, accounts, ix, send_amt), mint, owners) == supply(accounts, mint, owners),
{
    let auth = authority_of(program)->0;
    let temp = custodial_of(auth, ix.send_mint)->0;
    let s = with_custody(accounts, temp, ix.send_mint, auth);
    lemma_with_custody(accounts, temp, ix.send_mint, auth);
    if !contains(accounts, temp) {
        lemma_supply_push(accounts, TokenAccount { address: temp, mint: ix.send_mint, owner: auth, amount: 0 }, mint, owners);
        lemma_pos_unique(s, temp, accounts.len() as int);
    }
    let ps = pos(accounts, ix.send_account);
    assert(0 <= ps < accounts.len() && accounts[ps].address == ix.send_account);
    assert(s[ps] == accounts[ps]);
    lemma_pos_unique(s, ix.send_account, ps);
    lemma_transfer_conserves(s, send_amt, ix.send_account, temp, ix.party_one, mint, owners);
}

/// After a successful create, the custodial account of the offered mint is
/// held by the escrow authority, for that mint.
pub proof fn create_leaves_custody_with_authority(
    program: Address,
    accounts: Seq<TokenAccount>,
    offers: Seq<OfferRecord>,
    ix: CreateOffer,
    send_amt: u64,
    ask_amt: u64,
    party_two: Address,
)
    requires
        unique_addresses(accounts),
        create_outcome(program, accounts, offers, ix, send_amt, ask_amt, party_two) is Ok,
    ensures
        holds(
            create_accounts(program, accounts, ix, send_amt),
            custodial_of(authority_of(program)->0, ix.send_mint)->0,
            authority_of(program)->0,
            ix.send_mint,
        ),
{
    let auth = authority_of(program)->0;
    let temp = custodial_of(auth, ix.send_mint)->0;
    let s = with_custody(accounts, temp, ix.send_mint, auth);
    lemma_with_custody(accounts, temp, ix.send_mint, auth);
    if !contains(accounts, temp) {
        lemma_pos_unique(s, temp, accounts.len() as int);
    }
    assert(holds(s, temp, auth, ix.send_mint));
    lemma_transferred_addresses(s, send_amt, ix.send_account, temp, ix.party_one);
    let t = transferred(s, send_amt, ix.send_account, temp);
    let p = pos(s, temp);
    assert(t[p].address == temp);
    lemma_pos_unique(t, temp, p);
    if ix.send_account != temp {
        let s1 = set_amount(s, ix.send_account, (account(s, ix.send_account).amount - send_amt) as u64);
        assert(s1[p].address == temp);
        assert(unique_addresses(s1));
        lemma_pos_unique(s1, temp, p);
    }
}

/// Creating an offer and then closing it into the account the deposit came
/// from succeeds, restores every balance and leaves the open offers as they
/// were: only the custodial account remains, empty, where there was none.
pub proof fn create_then_close_restores(
    program: Address,
    accounts: Seq<TokenAccount>,
    offers: Seq<OfferRecord>,
    ix: CreateOffer,
    send_amt: u64,
    ask_amt: u64,
    party_two: Address,
)
    requires
        unique_addresses(accounts),
        records_ok(program, offers),
        create_outcome(program, accounts, offers, ix, send_amt, ask_amt, party_two) is Ok,
    ensures
        close_outcome(
            program,
            create_accounts(program, accounts, ix, send_amt),
            offers.push(created_record(program, ix, send_amt, ask_amt, party_two)),
            CloseOffer { party_one: ix.party_one, receive_account: ix.send_account },
            party_two,
        ) is Ok,
        close_accounts(
            program,
            create_accounts(program, accounts, ix, send_amt),
            offers.push(created_record(program, ix, send_amt, ask_amt, party_two)),
            CloseOffer { party_one: ix.party_one, receive_account: ix.send_account },
            party_two,
        ) == with_custody(accounts, custodial_of(authority_of(program)->0, ix.send_mint)->0, ix.send_mint, authority_of(program)->0),
        without_offer(
            offers.push(created_record(program, ix, send_amt, ask_amt, party_two)),
            offer_address_of(program, ix.party_one, party_two)->0,
        ) == offers,
{
    let auth = authority_of(program)->0;
    let temp = custodial_of(auth, ix.send_mint)->0;
    let s = with_custody(accounts, temp, ix.send_mint, auth);
    let t = create_accounts(program, accounts, ix, send_amt);
    let rec = created_record(program, ix, send_amt, ask_amt, party_two);
    let offers1 = offers.push(rec);
    lemma_with_custody(accounts, temp, ix.send_mint, auth);
    if !contains(accounts, temp) {
        lemma_pos_unique(s, temp, accounts.len() as int);
    }
    create_leaves_custody_with_authority(program, accounts, offers, ix, send_amt, ask_amt, party_two);
    lemma_transfer_undo(s, send_amt, ix.send_account, temp, ix.party_one, auth);
    lemma_transferred_addresses(s, send_amt, ix.send_account, temp, ix.party_one);
    let ps = pos(s, ix.send_account);
    assert(0 <= ps < s.len() && s[ps].address == ix.send_account);
    assert(t[ps].address == ix.send_account);
    lemma_pos_unique(t, ix.send_account, ps);
    assert(holds(t, ix.send_account, ix.party_one, ix.send_mint));
    let n = offers.len() as int;
    assert(unique_offers(offers1));
    assert(has_offer(offers1, rec.address)) by {
        assert(offers1[n].address == rec.address);
    }
    assert(offer_pos(offers1, rec.address) == n);
    assert(offers1.remove(n) =~= offers);
}

/// A successful close returns the deposit and leaves the total of every mint
/// unchanged over the accounts of any set of owners that holds party one and
/// the escrow authority (the full set: the whole ledger).
pub proof fn close_conserves_supply(
    program: Address,
    accounts: Seq<TokenAccount>,
    offers: Seq<OfferRecord>,
    ix: CloseOffer,
    party_two: Address,
    mint: Address,
    owners: Set<Address>,
)
    requires
        unique_addresses(accounts),
        close_outcome(program, accounts, offers, ix, party_two) is Ok,
        owners.contains(ix.party_one),
        owners.contains(authority_of(program)->0),
    ensures
        supply(close_accounts(program, accounts, offers, ix, party_two), mint, owners) == supply(accounts, mint, owners),
{
    let auth = authority_of(program)->0;
    let d = offers[offer_pos(offers, offer_address_of(program, ix.party_one, party_two)->0)].details;
    lemma_transfer_conserves(accounts, d.offer_amount, custodial_of(auth, d.offer_token)->0, ix.receive_account, auth, mint, owners);
}

/// A successful accept swaps the two amounts and leaves the total of every
/// mint unchanged over the accounts of any set of owners that holds both
/// parties and the escrow authority (the full set: the whole ledger).
pub proof fn accept_conserves_supply(
    program: Address,
    accounts: Seq<TokenAccount>,
    offers: Seq<OfferRecord>,
    ix: AcceptOffer,
    mint: Address,
    owners: Set<Address>,
)
    requires
        unique_addresses(accounts),
        accept_outcome(program, accounts, offers, ix) is Ok,
        owners.contains(ix.party_one),
        owners.contains(ix.party_two),
        owners.contains(authority_of(program)->0),
    ensures
        supply(accept_accounts(program, accounts, offers, ix), mint, owners) == supply(accounts, mint, owners),
{
    let auth = authority_of(program)->0;
    let d = offers[offer_pos(offers, offer_address_of(program, ix.party_one, ix.party_two)->0)].details;
    let temp = custodial_of(auth, d.offer_token)->0;
    lemma_transfer_conserves(accounts, d.ask_amount, ix.party_two_send, ix.party_one_receive, ix.party_two, mint, owners);
    lemma_transferred_addresses(accounts, d.ask_amount, ix.party_two_send, ix.party_one_receive, ix.party_two);
    let paid = transferred(accounts, d.ask_amount, ix.party_two_send, ix.party_one_receive);
    let pt = pos(accounts, temp);
    let pr = pos(accounts, ix.party_two_receive);
    assert(0 <= pt < accounts.len() && accounts[pt].address == temp);
    assert(0 <= pr < accounts.len() && accounts[pr].address == ix.party_two_receive);
    assert(paid[pt].address == temp && paid[pr].address == ix.party_two_receive);
    lemma_pos_unique(paid, temp, pt);
    lemma_pos_unique(paid, ix.party_two_receive, pr);
    lemma_transfer_conserves(paid, d.offer_amount, temp, ix.party_two_receive, auth, mint, owners);
}

/// Once the offer of a pair is resolved, neither a close nor an accept of
/// that pair can succeed: both find no offer.
pub proof fn resolved_offer_is_gone(
    program: Address,
    accounts: Seq<TokenAccount>,
    offers: Seq<OfferRecord>,
    party_one: Address,
    party_two: Address,
    close_ix: CloseOffer,
    accept_ix: AcceptOffer,
)
    requires
        unique_offers(offers),
        authority_of(program) is Some,
        offer_address_of(program, party_one, party_two) is Some,
        has_offer(offers, offer_address_of(program, party_one, party_two)->0),
        close_ix.party_one == party_one,
        accept_ix.party_one == party_one,
        accept_ix.party_two == party_two,
    ensures
        close_outcome(program, accounts, without_offer(offers, offer_address_of(program, party_one, party_two)->0), close_ix, party_two)
            == Err::<(), InstructionError>(InstructionError::OfferNotFound),
        accept_outcome(program, accounts, without_offer(offers, offer_address_of(program, party_one, party_two)->0), accept_ix)
            == Err::<(), InstructionError>(InstructionError::OfferNotFound),
{
    let a = offer_address_of(program, party_one, party_two)->0;
    let p = offer_pos(offers, a);
    let rest = without_offer(offers, a);
    assert forall|i: int| 0 <= i < rest.len() implies rest[i].address != a by {
        if i < p {
            assert(rest[i] == offers[i]);
        } else {
            assert(rest[i] == offers[i + 1]);
        }
    }
}

/// A close that succeeded on `first_accounts`, then an accept of the same
/// offer on whatever ledger stands later: the accept finds no offer.
pub proof fn close_then_accept_fails(
    program: Address,
    first_accounts: Seq<TokenAccount>,
    later_accounts: Seq<TokenAccount>,
    offers: Seq<OfferRecord>,
    close_ix: CloseOffer,
    party_two: Address,
    accept_ix: AcceptOffer,
)
    requires
        unique_offers(offers),
        close_outcome(program, first_accounts, offers, close_ix, party_two) is Ok,
        accept_ix.party_one == close_ix.party_one,
        accept_ix.party_two == party_two,
    ensures
        accept_outcome(program, later_accounts, without_offer(offers, offer_address_of(program, close_ix.party_one, party_two)->0), accept_ix)
            == Err::<(), InstructionError>(InstructionError::OfferNotFound),
{
    resolved_offer_is_gone(program, later_accounts, offers, close_ix.party_one, party_two, close_ix, accept_ix);
}

/// An accept that succeeded on `first_accounts`, then a close of the same
/// offer on whatever ledger stands later: the close finds no offer.
pub proof fn accept_then_close_fails(
    program: Address,
    first_accounts: Seq<TokenAccount>,
    later_accounts: Seq<TokenAccount>,
    offers: Seq<OfferRecord>,
    accept_ix: AcceptOffer,
    close_ix: CloseOffer,
)
    requires
        unique_offers(offers),
        accept_outcome(program, first_accounts, offers, accept_ix) is Ok,
        close_ix.party_one == accept_ix.party_one,
    ensures
        close_outcome(program, later_accounts, without_offer(offers, offer_address_of(program, accept_ix.party_one, accept_ix.party_two)->0), close_ix, accept_ix.party_two)
            == Err::<(), InstructionError>(InstructionError::OfferNotFound),
{
    resolved_offer_is_gone(program, later_accounts, offers, accept_ix.party_one, accept_ix.party_two, close_ix, accept_ix);
}

/// Tokens leave a custodial account held by the escrow authority only under
/// that authority: a transfer out of it under any other authority fails.
pub proof fn custody_moves_only_under_escrow_authority(
    program: Address,
    accounts: Seq<TokenAccount>,
    mint: Address,
    amount: u64,
    to: Address,
    authority: Address,
)
    requires
        authority_of(program) is Some,
        holds(accounts, custodial_of(authority_of(program)->0, mint)->0, authority_of(program)->0, mint),
        authority != authority_of(program)->0,
    ensures
        transfer_outcome(accounts, amount, custodial_of(authority_of(program)->0, mint)->0, to, authority) is Err,
{
}

/// A create with a zero deposit, or one that names party one as party two,
/// is refused before anything else is looked at.
pub proof fn create_rejects_zero_and_self_deal(
    program: Address,
    accounts: Seq<TokenAccount>,
    offers: Seq<OfferRecord>,
    ix: CreateOffer,
    send_amt: u64,
    ask_amt: u64,
    party_two: Address,
)
    ensures
        create_outcome(program, accounts, offers, ix, 0, ask_amt, party_two)
            == Err::<(), InstructionError>(InstructionError::Escrow(EscrowError::ZeroSendAmount)),
        send_amt > 0 && ask_amt > 0 ==> create_outcome(program, accounts, offers, ix, send_amt, ask_amt, ix.party_one)
            == Err::<(), InstructionError>(InstructionError::Escrow(EscrowError::InvalidPartyTwo)),
{
}

} // verus!
