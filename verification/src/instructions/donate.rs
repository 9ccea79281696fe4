use crate::address::{find_receipt_address, found_view, outcome_view, receipt_address, Address};
use crate::errors::DonationError;
use crate::ledger::{Ledger, LedgerView};
use vstd::prelude::*;

verus! {

/// What a `DonationReceipt` holds.
pub struct ReceiptView {
    pub user: Seq<u8>,
    pub project: Seq<u8>,
    pub amount: u64,
    pub timestamp: i64,
    pub refunded: bool,
    pub bump: u8,
}

/// The record of one accepted pledge.
#[derive(Clone, Copy, Debug, PartialEq, Eq)]
pub struct DonationReceipt {
    pub user: Address,
    pub project: Address,
    pub amount: u64,
    pub timestamp: i64,
    pub refunded: bool,
    pub bump: u8,
}

impl View for DonationReceipt {
    type V = ReceiptView;

    open spec fn view(&self) -> ReceiptView {
        ReceiptView {
            user: self.user@,
            project: self.project@,
            amount: self.amount,
            timestamp: self.timestamp,
            refunded: self.refunded,
            bump: self.bump,
        }
    }
}

impl ReceiptView {
    /// The receipt issued for a pledge of `amount` by `user` to `project`,
    /// accepted at `timestamp`.
    pub open spec fn issued(user: Seq<u8>, project: Seq<u8>, amount: u64, timestamp: i64, bump: u8) -> ReceiptView {
        ReceiptView { user, project, amount, timestamp, refunded: false, bump }
    }
}

impl DonationReceipt {
    /// The receipt of a pledge that has just been accepted: not refunded.
    pub fn new(user: Address, project: Address, amount: u64, timestamp: i64, bump: u8) -> (receipt: DonationReceipt)
        ensures
            receipt@ == ReceiptView::issued(user@, project@, amount, timestamp, bump),
            receipt.user == user,
            receipt.project == project,
    {
        DonationReceipt { user, project, amount, timestamp, refunded: false, bump }
    }
}

/// The accounts of a request to pledge.
#[derive(Clone, Copy, Debug)]
pub struct MakeDonation {
    /// Who pledges, and pays.
    pub user: Address,
    /// The address of the project pledged to.
    pub project: Address,
}

/// What a pledge of `amount` by `user` to the project at `project` does to
/// the ledger and hands back, given the outcome `found` of the search for
/// the receipt's address. In this order: the project has to be there; the
/// clock has to read less than its deadline; the user's balance has to cover
/// the amount; the project's total has to stay in range; the receipt needs
/// an address, and one that holds no record yet. Then the pledge is accepted
/// with the clock's reading as its time, and the receipt's address handed
/// back. Whatever is refused leaves the ledger as it was.
pub open spec fn donate_step(
    s: LedgerView,
    user: Seq<u8>,
    project: Seq<u8>,
    found: Option<(Seq<u8>, u8)>,
    amount: u64,
) -> (LedgerView, Result<Seq<u8>, DonationError>) {
    if !s.projects.dom().contains(project) {
        (s, Err(DonationError::ProjectNotFound))
    } else if !s.projects[project].is_open(s.now) {
        (s, Err(DonationError::ProjectExpired))
    } else if s.balances[user] < amount {
        (s, Err(DonationError::InsufficientFunds))
    } else if s.projects[project].current_amount + amount > u64::MAX {
        (s, Err(DonationError::AmountOverflow))
    } else {
        match found {
            None => (s, Err(DonationError::AddressSpaceExhausted)),
            Some((address, bump)) => if s.in_use(address) {
                (s, Err(DonationError::AddressAlreadyInUse))
            } else {
                (s.accepted(address, ReceiptView::issued(user, project, amount, s.now, bump)), Ok(address))
            },
        }
    }
}

/// Pledges `amount`, with the receipt at the address that an address search
/// has yielded.
pub fn donate_at(ledger: &mut Ledger, accounts: &MakeDonation, found: Option<(Address, u8)>, amount: u64) -> (r:
    Result<Address, DonationError>)
    requires
        old(ledger).wf(),
    ensures
        final(ledger).wf(),
        final(ledger)@ == donate_step(
            old(ledger)@,
            accounts.user@,
            accounts.project@,
            found_view(found),
            amount,
        ).0,
        outcome_view(r) == donate_step(
            old(ledger)@,
            accounts.user@,
            accounts.project@,
            found_view(found),
            amount,
        ).1,
{
    let current_time = ledger.now();
    let raised = match ledger.project(&accounts.project) {
        Some(project) => {
            if let Err(e) = project.check_open(current_time) {
                return Err(e);
            }
            project.current_amount()
        },
        None => {
            return Err(DonationError::ProjectNotFound);
        },
    };
    if ledger.balance_of(&accounts.user) < amount {
        return Err(DonationError::InsufficientFunds);
    }
    if raised.checked_add(amount).is_none() {
        return Err(DonationError::AmountOverflow);
    }
    let (address, bump) = match found {
        Some(pair) => pair,
        None => {
            return Err(DonationError::AddressSpaceExhausted);
        },
    };
    if ledger.is_in_use(&address) {
        return Err(DonationError::AddressAlreadyInUse);
    }
    let receipt = DonationReceipt::new(accounts.user, accounts.project, amount, current_time, bump);
    ledger.settle(address, receipt);
    Ok(address)
}

/// Pledges `amount` from `accounts.user` to the project at
/// `accounts.project`. The receipt lives at the address that belongs to the
/// user, the project and `timestamp_pda`, so one such triple is accepted
/// once. The time that decides, and that the receipt records, is the
/// ledger's own clock: `timestamp_pda` only tells receipts apart.
pub fn donate(ledger: &mut Ledger, accounts: &MakeDonation, amount: u64, timestamp_pda: i64) -> (r: Result<
    Address,
    DonationError,
>)
    requires
        old(ledger).wf(),
    ensures
        final(ledger).wf(),
        final(ledger)@ == donate_step(
            old(ledger)@,
            accounts.user@,
            accounts.project@,
            receipt_address(accounts.user@, accounts.project@, timestamp_pda),
            amount,
        ).0,
        outcome_view(r) == donate_step(
            old(ledger)@,
            accounts.user@,
            accounts.project@,
            receipt_address(accounts.user@, accounts.project@, timestamp_pda),
            amount,
        ).1,
{
    let found = find_receipt_address(&accounts.user, &accounts.project, timestamp_pda);
    donate_at(ledger, accounts, found, amount)
}

} // verus!
