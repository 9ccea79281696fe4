//! What holds of the ledger whatever is asked of it, stated over the ledger's
//! mathematical value and the steps that the operations take on it.

use crate::address::{project_address, receipt_address};
use crate::errors::DonationError;
use crate::instructions::donate::{donate_step, ReceiptView};
use crate::instructions::init_project::{init_project_step, MetadataView, ProjectView};
use crate::ledger::{
    deposit_step, lemma_accepted_consistent, lemma_deposited_consistent, lemma_raised_push,
    lemma_with_project_consistent, LedgerView,
};
use vstd::prelude::*;

verus! {

/// Creating a project, accepted or refused, keeps the ledger consistent.
pub proof fn lemma_init_project_consistent(
    s: LedgerView,
    owner: Seq<u8>,
    found: Option<(Seq<u8>, u8)>,
    project_id: Seq<char>,
    metadata: MetadataView,
    target_amount: u64,
    end_time: i64,
)
    requires
        s.consistent(),
    ensures
        init_project_step(s, owner, found, project_id, metadata, target_amount, end_time).0.consistent(),
{
    let step = init_project_step(s, owner, found, project_id, metadata, target_amount, end_time);
    if step.1 is Ok {
        let (address, bump) = found->Some_0;
        lemma_with_project_consistent(s, address, step.0.projects[address]);
    }
}

/// A pledge, accepted or refused, keeps the ledger consistent.
pub proof fn lemma_donate_consistent(
    s: LedgerView,
    user: Seq<u8>,
    project: Seq<u8>,
    found: Option<(Seq<u8>, u8)>,
    amount: u64,
)
    requires
        s.consistent(),
    ensures
        donate_step(s, user, project, found, amount).0.consistent(),
{
    let step = donate_step(s, user, project, found, amount);
    if step.1 is Ok {
        let (address, bump) = found->Some_0;
        lemma_accepted_consistent(
            s,
            address,
            ReceiptView::issued(user, project, amount, s.now, bump),
        );
    }
}

/// An accepted pledge adds exactly its amount to the project's running
/// total, moves exactly its amount from the user to the project and touches
/// no other balance, and leaves one more receipt, which records it.
pub proof fn lemma_donate_accepted(
    s: LedgerView,
    user: Seq<u8>,
    project: Seq<u8>,
    found: Option<(Seq<u8>, u8)>,
    amount: u64,
)
    requires
        donate_step(s, user, project, found, amount).1 is Ok,
    ensures
        ({
            let t = donate_step(s, user, project, found, amount).0;
            &&& t.projects.dom().contains(project)
            &&& t.projects[project].current_amount == s.projects[project].current_amount + amount
            &&& t.raised(project) == s.raised(project) + amount
            &&& t.receipts.len() == s.receipts.len() + 1
            &&& t.receipts.last().receipt.user == user
            &&& t.receipts.last().receipt.project == project
            &&& t.receipts.last().receipt.amount == amount
            &&& t.receipts.last().receipt.timestamp == s.now
            &&& !t.receipts.last().receipt.refunded
            &&& s.now < s.projects[project].end_time
            &&& t.supply == s.supply
            &&& t.now == s.now
            &&& user != project ==> t.balances[user] == s.balances[user] - amount && t.balances[project]
                == s.balances[project] + amount
            &&& user == project ==> t.balances[user] == s.balances[user]
            &&& forall|a: Seq<u8>|
                a != user && a != project && s.balances.dom().contains(a) ==> #[trigger] t.balances[a]
                    == s.balances[a]
        }),
{
    let t = donate_step(s, user, project, found, amount).0;
    lemma_raised_push(s.receipts, t.receipts.last(), project);
    assert(t.receipts.drop_last() =~= s.receipts);
}

/// One pledge of a series: who pledges, how much, under which seed, and the
/// clock's reading when the pledge is made.
pub struct Pledge {
    pub user: Seq<u8>,
    pub amount: u64,
    pub seed: i64,
    pub at: i64,
}

/// The ledger after `pledges` have been made to `project`, one after the
/// other, each at its own time.
pub open spec fn after_pledges(s: LedgerView, project: Seq<u8>, pledges: Seq<Pledge>) -> LedgerView
    decreases pledges.len(),
{
    if pledges.len() == 0 {
        s
    } else {
        let p = pledges.last();
        donate_step(
            after_pledges(s, project, pledges.drop_last()).at_time(p.at),
            p.user,
            project,
            receipt_address(p.user, project, p.seed),
            p.amount,
        ).0
    }
}

/// Every one of `pledges`, made to `project` one after the other, is accepted.
pub open spec fn all_accepted(s: LedgerView, project: Seq<u8>, pledges: Seq<Pledge>) -> bool
    decreases pledges.len(),
{
    pledges.len() == 0 || {
        let p = pledges.last();
        &&& all_accepted(s, project, pledges.drop_last())
        &&& donate_step(
            after_pledges(s, project, pledges.drop_last()).at_time(p.at),
            p.user,
            project,
            receipt_address(p.user, project, p.seed),
            p.amount,
        ).1 is Ok
    }
}

/// Sum of the amounts of `pledges`.
pub open spec fn pledged(pledges: Seq<Pledge>) -> nat
    decreases pledges.len(),
{
    if pledges.len() == 0 {
        0
    } else {
        pledged(pledges.drop_last()) + pledges.last().amount as nat
    }
}

/// After any series of accepted pledges to a project, its running total has
/// grown by the sum of the pledged amounts, and so has the sum of the
/// receipts that point to it, one receipt for each pledge; in a consistent
/// ledger the two sums are the same number.
pub proof fn running_total_grows_by_pledges(s: LedgerView, project: Seq<u8>, pledges: Seq<Pledge>)
    requires
        s.projects.dom().contains(project),
        all_accepted(s, project, pledges),
    ensures
        ({
            let t = after_pledges(s, project, pledges);
            &&& t.projects.dom().contains(project)
            &&& t.projects[project].current_amount == s.projects[project].current_amount + pledged(pledges)
            &&& t.raised(project) == s.raised(project) + pledged(pledges)
            &&& t.receipts.len() == s.receipts.len() + pledges.len()
            &&& s.consistent() ==> t.projects[project].current_amount == t.raised(project)
        }),
    decreases pledges.len(),
{
    if pledges.len() > 0 {
        let p = pledges.last();
        let before = after_pledges(s, project, pledges.drop_last());
        running_total_grows_by_pledges(s, project, pledges.drop_last());
        lemma_donate_accepted(
            before.at_time(p.at),
            p.user,
            project,
            receipt_address(p.user, project, p.seed),
            p.amount,
        );
    }
}

/// In a consistent ledger every project's running total is the sum of the
/// amounts of the receipts that point to it, and every such receipt was
/// accepted before the project's deadline.
pub proof fn running_total_is_sum_of_receipts(s: LedgerView, project: Seq<u8>)
    requires
        s.consistent(),
        s.projects.dom().contains(project),
    ensures
        s.projects[project].current_amount == s.raised(project),
        forall|i: int|
            0 <= i < s.receipts.len() && (#[trigger] s.receipts[i]).receipt.project == project
                ==> s.receipts[i].receipt.timestamp < s.projects[project].end_time,
{
}

/// A series of pledges, accepted or refused, keeps the ledger consistent.
pub proof fn pledges_keep_consistent(s: LedgerView, project: Seq<u8>, pledges: Seq<Pledge>)
    requires
        s.consistent(),
    ensures
        after_pledges(s, project, pledges).consistent(),
    decreases pledges.len(),
{
    if pledges.len() > 0 {
        let p = pledges.last();
        let before = after_pledges(s, project, pledges.drop_last());
        pledges_keep_consistent(s, project, pledges.drop_last());
        lemma_donate_consistent(
            before.at_time(p.at),
            p.user,
            project,
            receipt_address(p.user, project, p.seed),
            p.amount,
        );
    }
}

/// A pledge made when the clock has reached the project's deadline is
/// refused as expired, whatever else holds of it, and nothing changes: no
/// balance, no total, no receipt.
pub proof fn pledge_after_deadline_is_refused(
    s: LedgerView,
    user: Seq<u8>,
    project: Seq<u8>,
    found: Option<(Seq<u8>, u8)>,
    amount: u64,
)
    requires
        s.projects.dom().contains(project),
        s.now >= s.projects[project].end_time,
    ensures
        donate_step(s, user, project, found, amount) == (
            s,
            Err::<Seq<u8>, DonationError>(DonationError::ProjectExpired),
        ),
{
}

/// A pledge to an open project that the user's balance does not cover is
/// refused for want of funds, and nothing changes: no balance, no total, no
/// receipt.
pub proof fn pledge_beyond_balance_is_refused(
    s: LedgerView,
    user: Seq<u8>,
    project: Seq<u8>,
    found: Option<(Seq<u8>, u8)>,
    amount: u64,
)
    requires
        s.projects.dom().contains(project),
        s.now < s.projects[project].end_time,
        s.balances[user] < amount,
    ensures
        donate_step(s, user, project, found, amount) == (
            s,
            Err::<Seq<u8>, DonationError>(DonationError::InsufficientFunds),
        ),
{
}

/// Whatever a pledge is refused for, the ledger is left exactly as it was.
pub proof fn refused_pledge_changes_nothing(
    s: LedgerView,
    user: Seq<u8>,
    project: Seq<u8>,
    found: Option<(Seq<u8>, u8)>,
    amount: u64,
)
    requires
        donate_step(s, user, project, found, amount).1 is Err,
    ensures
        donate_step(s, user, project, found, amount).0 == s,
{
}

/// Whatever the creation of a project is refused for, the ledger is left
/// exactly as it was.
pub proof fn refused_creation_changes_nothing(
    s: LedgerView,
    owner: Seq<u8>,
    found: Option<(Seq<u8>, u8)>,
    project_id: Seq<char>,
    metadata: MetadataView,
    target_amount: u64,
    end_time: i64,
)
    requires
        init_project_step(s, owner, found, project_id, metadata, target_amount, end_time).1 is Err,
    ensures
        init_project_step(s, owner, found, project_id, metadata, target_amount, end_time).0 == s,
{
}

/// Of two creations by one owner under one identifier, the second is
/// refused because the address is in use, whatever it asks for, and leaves
/// the ledger, the first project with it, as the first creation left it.
pub proof fn second_creation_is_refused(
    s: LedgerView,
    owner: Seq<u8>,
    project_id: Seq<char>,
    first_metadata: MetadataView,
    first_target: u64,
    first_end: i64,
    second_metadata: MetadataView,
    second_target: u64,
    second_end: i64,
)
    requires
        init_project_step(
            s,
            owner,
            project_address(owner, project_id),
            project_id,
            first_metadata,
            first_target,
            first_end,
        ).1 is Ok,
    ensures
        ({
            let found = project_address(owner, project_id);
            let first = init_project_step(s, owner, found, project_id, first_metadata, first_target, first_end);
            init_project_step(first.0, owner, found, project_id, second_metadata, second_target, second_end) == (
                first.0,
                Err::<Seq<u8>, DonationError>(DonationError::AddressAlreadyInUse),
            )
        }),
{
}

/// Of two pledges by one user to one project under one seed, at most one is
/// accepted; and the one that is refused leaves the ledger exactly as it
/// was before it was made.
pub proof fn one_pledge_per_seed(
    s: LedgerView,
    user: Seq<u8>,
    project: Seq<u8>,
    seed: i64,
    first_amount: u64,
    second_amount: u64,
    second_time: i64,
)
    ensures
        ({
            let found = receipt_address(user, project, seed);
            let first = donate_step(s, user, project, found, first_amount);
            let between = first.0.at_time(second_time);
            let second = donate_step(between, user, project, found, second_amount);
            &&& !(first.1 is Ok && second.1 is Ok)
            &&& first.1 is Err ==> first.0 == s
            &&& second.1 is Err ==> second.0 == between
        }),
{
    let found = receipt_address(user, project, seed);
    let first = donate_step(s, user, project, found, first_amount);
    if first.1 is Ok {
        let (address, bump) = found->Some_0;
        let between = first.0.at_time(second_time);
        assert(between.receipts[between.receipts.len() - 1].address == address);
        assert(between.has_receipt(address));
    }
}

/// A record, once stored, stays: no pledge frees an address.
pub proof fn records_outlast_pledges(
    s: LedgerView,
    address: Seq<u8>,
    user: Seq<u8>,
    project: Seq<u8>,
    found: Option<(Seq<u8>, u8)>,
    amount: u64,
)
    requires
        s.in_use(address),
    ensures
        donate_step(s, user, project, found, amount).0.in_use(address),
{
    let t = donate_step(s, user, project, found, amount).0;
    if s.has_receipt(address) {
        let i = choose|i: int| 0 <= i < s.receipts.len() && (#[trigger] s.receipts[i]).address == address;
        if t.receipts.len() > s.receipts.len() {
            assert(t.receipts[i] == s.receipts[i]);
        }
        assert(t.receipts[i].address == address);
    }
}

/// A record, once stored, stays: no creation frees an address.
pub proof fn records_outlast_creations(
    s: LedgerView,
    address: Seq<u8>,
    owner: Seq<u8>,
    found: Option<(Seq<u8>, u8)>,
    project_id: Seq<char>,
    metadata: MetadataView,
    target_amount: u64,
    end_time: i64,
)
    requires
        s.in_use(address),
    ensures
        init_project_step(s, owner, found, project_id, metadata, target_amount, end_time).0.in_use(address),
{
    let t = init_project_step(s, owner, found, project_id, metadata, target_amount, end_time).0;
    if s.has_receipt(address) {
        let i = choose|i: int| 0 <= i < s.receipts.len() && (#[trigger] s.receipts[i]).address == address;
        assert(t.receipts[i].address == address);
    }
}

/// One request to the ledger.
pub enum Request {
    SetTime { now: i64 },
    Deposit { address: Seq<u8>, amount: u64 },
    InitProject {
        owner: Seq<u8>,
        project_id: Seq<char>,
        metadata: MetadataView,
        target_amount: u64,
        end_time: i64,
    },
    Donate { user: Seq<u8>, project: Seq<u8>, amount: u64, seed: i64 },
}

/// The ledger after one request has been served, accepted or refused.
pub open spec fn served(s: LedgerView, request: Request) -> LedgerView {
    match request {
        Request::SetTime { now } => s.at_time(now),
        Request::Deposit { address, amount } => deposit_step(s, address, amount).0,
        Request::InitProject { owner, project_id, metadata, target_amount, end_time } => init_project_step(
            s,
            owner,
            project_address(owner, project_id),
            project_id,
            metadata,
            target_amount,
            end_time,
        ).0,
        Request::Donate { user, project, amount, seed } => donate_step(
            s,
            user,
            project,
            receipt_address(user, project, seed),
            amount,
        ).0,
    }
}

/// The ledger after `requests` have been served one after the other.
pub open spec fn after(s: LedgerView, requests: Seq<Request>) -> LedgerView
    decreases requests.len(),
{
    if requests.len() == 0 {
        s
    } else {
        served(after(s, requests.drop_last()), requests.last())
    }
}

/// Serving a request keeps the ledger consistent, keeps every record where
/// it is, changes of a stored project nothing but its running total, which
/// never falls, and changes no receipt.
pub proof fn request_keeps_what_is_stored(s: LedgerView, request: Request)
    ensures
        s.consistent() ==> served(s, request).consistent(),
        forall|a: Seq<u8>| #[trigger] s.in_use(a) ==> served(s, request).in_use(a),
        forall|p: Seq<u8>| #[trigger]
            s.projects.dom().contains(p) ==> {
                let t = served(s, request);
                &&& t.projects.dom().contains(p)
                &&& t.projects[p].current_amount >= s.projects[p].current_amount
                &&& t.projects[p] == (ProjectView { current_amount: t.projects[p].current_amount, ..s.projects[p] })
            },
        s.receipts.len() <= served(s, request).receipts.len(),
        forall|i: int| 0 <= i < s.receipts.len() ==> #[trigger] served(s, request).receipts[i] == s.receipts[i],
{
    let t = served(s, request);
    match request {
        Request::SetTime { now } => {},
        Request::Deposit { address, amount } => {
            if s.consistent() {
                lemma_deposited_consistent(s, address, amount as nat);
            }
        },
        Request::InitProject { owner, project_id, metadata, target_amount, end_time } => {
            if s.consistent() {
                lemma_init_project_consistent(
                    s,
                    owner,
                    project_address(owner, project_id),
                    project_id,
                    metadata,
                    target_amount,
                    end_time,
                );
            }
        },
        Request::Donate { user, project, amount, seed } => {
            if s.consistent() {
                lemma_donate_consistent(s, user, project, receipt_address(user, project, seed), amount);
            }
        },
    }
    assert forall|a: Seq<u8>| #[trigger] s.in_use(a) implies t.in_use(a) by {
        match request {
            Request::SetTime { now } => {
                if s.has_receipt(a) {
                    let i = choose|i: int| 0 <= i < s.receipts.len() && (#[trigger] s.receipts[i]).address == a;
                    assert(t.receipts[i].address == a);
                }
            },
            Request::Deposit { address, amount } => {
                if s.has_receipt(a) {
                    let i = choose|i: int| 0 <= i < s.receipts.len() && (#[trigger] s.receipts[i]).address == a;
                    assert(t.receipts[i].address == a);
                }
            },
            Request::InitProject { owner, project_id, metadata, target_amount, end_time } => {
                records_outlast_creations(
                    s,
                    a,
                    owner,
                    project_address(owner, project_id),
                    project_id,
                    metadata,
                    target_amount,
                    end_time,
                );
            },
            Request::Donate { user, project, amount, seed } => {
                records_outlast_pledges(s, a, user, project, receipt_address(user, project, seed), amount);
            },
        }
    }
}

/// Whatever requests are served, a consistent ledger stays consistent,
/// every record stays where it is, a stored project keeps every field but
/// its running total, which never falls, and every receipt stays as it was
/// issued.
pub proof fn history_keeps_what_is_stored(s: LedgerView, requests: Seq<Request>)
    ensures
        s.consistent() ==> after(s, requests).consistent(),
        forall|a: Seq<u8>| #[trigger] s.in_use(a) ==> after(s, requests).in_use(a),
        forall|p: Seq<u8>| #[trigger]
            s.projects.dom().contains(p) ==> {
                let t = after(s, requests);
                &&& t.projects.dom().contains(p)
                &&& t.projects[p].current_amount >= s.projects[p].current_amount
                &&& t.projects[p] == (ProjectView { current_amount: t.projects[p].current_amount, ..s.projects[p] })
            },
        s.receipts.len() <= after(s, requests).receipts.len(),
        forall|i: int| 0 <= i < s.receipts.len() ==> #[trigger] after(s, requests).receipts[i] == s.receipts[i],
    decreases requests.len(),
{
    if requests.len() > 0 {
        let before = after(s, requests.drop_last());
        history_keeps_what_is_stored(s, requests.drop_last());
        request_keeps_what_is_stored(before, requests.last());
        assert forall|a: Seq<u8>| #[trigger] s.in_use(a) implies after(s, requests).in_use(a) by {
            assert(before.in_use(a));
        }
        assert forall|p: Seq<u8>| #[trigger] s.projects.dom().contains(p) implies {
            let t = after(s, requests);
            &&& t.projects.dom().contains(p)
            &&& t.projects[p].current_amount >= s.projects[p].current_amount
            &&& t.projects[p] == (ProjectView { current_amount: t.projects[p].current_amount, ..s.projects[p] })
        } by {
            assert(before.projects.dom().contains(p));
        }
    }
}

/// Once a project has been created, every later creation by the same
/// owner under the same identifier is refused because the address is in
/// use, whatever was served in between and whatever it asks for, and it
/// changes nothing.
pub proof fn creation_happens_once(
    s: LedgerView,
    owner: Seq<u8>,
    project_id: Seq<char>,
    first_metadata: MetadataView,
    first_target: u64,
    first_end: i64,
    between: Seq<Request>,
    second_metadata: MetadataView,
    second_target: u64,
    second_end: i64,
)
    requires
        init_project_step(
            s,
            owner,
            project_address(owner, project_id),
            project_id,
            first_metadata,
            first_target,
            first_end,
        ).1 is Ok,
    ensures
        ({
            let found = project_address(owner, project_id);
            let first = init_project_step(s, owner, found, project_id, first_metadata, first_target, first_end);
            let later = after(first.0, between);
            &&& init_project_step(later, owner, found, project_id, second_metadata, second_target, second_end) == (
                later,
                Err::<Seq<u8>, DonationError>(DonationError::AddressAlreadyInUse),
            )
            &&& later.projects.dom().contains(found->Some_0.0)
            &&& later.projects[found->Some_0.0] == (ProjectView {
                current_amount: later.projects[found->Some_0.0].current_amount,
                ..ProjectView::fresh(owner, project_id, first_metadata, first_target, first_end, found->Some_0.1)
            })
        }),
{
    let found = project_address(owner, project_id);
    let first = init_project_step(s, owner, found, project_id, first_metadata, first_target, first_end);
    let address = found->Some_0.0;
    assert(first.0.projects.dom().contains(address));
    assert(first.0.in_use(address));
    history_keeps_what_is_stored(first.0, between);
}

/// Once a pledge has been accepted, no later pledge by the same user to
/// the same project under the same seed is, whatever was served in between
/// and whatever its amount, and it changes nothing.
pub proof fn pledge_happens_once(
    s: LedgerView,
    user: Seq<u8>,
    project: Seq<u8>,
    seed: i64,
    first_amount: u64,
    between: Seq<Request>,
    second_amount: u64,
)
    requires
        donate_step(s, user, project, receipt_address(user, project, seed), first_amount).1 is Ok,
    ensures
        ({
            let found = receipt_address(user, project, seed);
            let first = donate_step(s, user, project, found, first_amount);
            let later = after(first.0, between);
            let second = donate_step(later, user, project, found, second_amount);
            second.1 is Err && second.0 == later
        }),
{
    let found = receipt_address(user, project, seed);
    let first = donate_step(s, user, project, found, first_amount);
    let address = found->Some_0.0;
    assert(first.0.receipts[first.0.receipts.len() - 1].address == address);
    assert(first.0.in_use(address));
    history_keeps_what_is_stored(first.0, between);
}

} // verus!
