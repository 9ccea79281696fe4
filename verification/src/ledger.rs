use crate::address::Address;
use crate::errors::DonationError;
use crate::instructions::donate::{DonationReceipt, ReceiptView};
use crate::instructions::init_project::{record_fits, Project, ProjectView};
use vstd::prelude::*;

verus! {

/// A receipt together with the address it is stored at.
pub struct ReceiptEntry {
    pub address: Seq<u8>,
    pub receipt: ReceiptView,
}

/// The ledger as a mathematical value: the clock, every balance, the
/// projects by address, and the receipts in the order of their acceptance.
pub struct LedgerView {
    pub now: i64,
    pub supply: nat,
    pub balances: Map<Seq<u8>, nat>,
    pub projects: Map<Seq<u8>, ProjectView>,
    pub receipts: Seq<ReceiptEntry>,
}

/// Sum of the amounts of the receipts that point to `project`.
pub open spec fn raised_in(receipts: Seq<ReceiptEntry>, project: Seq<u8>) -> nat
    decreases receipts.len(),
{
    if receipts.len() == 0 {
        0
    } else {
        raised_in(receipts.drop_last(), project) + if receipts.last().receipt.project == project {
            receipts.last().receipt.amount as nat
        } else {
            0
        }
    }
}

/// The balances after `amount` has moved from `from` to `to`.
pub open spec fn moved(balances: Map<Seq<u8>, nat>, from: Seq<u8>, to: Seq<u8>, amount: nat) -> Map<
    Seq<u8>,
    nat,
> {
    if from == to {
        balances
    } else {
        balances.insert(from, (balances[from] - amount) as nat).insert(to, balances[to] + amount)
    }
}

impl LedgerView {
    /// The ledger before anything has happened.
    pub open spec fn empty() -> LedgerView {
        LedgerView {
            now: 0,
            supply: 0,
            balances: Map::total(|a: Seq<u8>| 0nat),
            projects: Map::empty(),
            receipts: Seq::empty(),
        }
    }

    /// A receipt is stored at `address`.
    pub open spec fn has_receipt(self, address: Seq<u8>) -> bool {
        exists|i: int| 0 <= i < self.receipts.len() && (#[trigger] self.receipts[i]).address == address
    }

    /// The receipt stored at `address`.
    pub open spec fn receipt_at(self, address: Seq<u8>) -> ReceiptView {
        let i = choose|i: int| 0 <= i < self.receipts.len() && (#[trigger] self.receipts[i]).address == address;
        self.receipts[i].receipt
    }

    /// A record, project or receipt, is stored at `address`.
    pub open spec fn in_use(self, address: Seq<u8>) -> bool {
        self.projects.dom().contains(address) || self.has_receipt(address)
    }

    /// Sum of the amounts of the receipts that point to `project`.
    pub open spec fn raised(self, project: Seq<u8>) -> nat {
        raised_in(self.receipts, project)
    }

    /// What holds of every ledger that the operations can reach: every
    /// address has a balance, be it zero; no address holds two records; every receipt points to a stored project, was
    /// accepted before that project's deadline and is not refunded; every
    /// project's running total is the sum of its receipts; and every
    /// project's texts are within the room reserved for them.
    pub open spec fn consistent(self) -> bool {
        &&& forall|a: Seq<u8>| #[trigger] self.balances.dom().contains(a)
        &&& forall|i: int, j: int|
            0 <= i < j < self.receipts.len() ==> (#[trigger] self.receipts[i]).address != (
            #[trigger] self.receipts[j]).address
        &&& forall|i: int|
            0 <= i < self.receipts.len() ==> {
                let e = #[trigger] self.receipts[i];
                &&& !self.projects.dom().contains(e.address)
                &&& self.projects.dom().contains(e.receipt.project)
                &&& e.receipt.timestamp < self.projects[e.receipt.project].end_time
                &&& !e.receipt.refunded
            }
        &&& forall|p: Seq<u8>| #[trigger]
            self.projects.dom().contains(p) ==> {
                &&& self.projects[p].current_amount == raised_in(self.receipts, p)
                &&& record_fits(self.projects[p].project_id, self.projects[p].metadata)
            }
    }

    /// The ledger with its clock at `now`.
    pub open spec fn at_time(self, now: i64) -> LedgerView {
        LedgerView { now, ..self }
    }

    /// The ledger after `amount` of new money has been put at `address`.
    pub open spec fn deposited(self, address: Seq<u8>, amount: nat) -> LedgerView {
        LedgerView {
            supply: self.supply + amount,
            balances: self.balances.insert(address, self.balances[address] + amount),
            ..self
        }
    }

    /// The ledger after `project` has been stored at `address`.
    pub open spec fn with_project(self, address: Seq<u8>, project: ProjectView) -> LedgerView {
        LedgerView { projects: self.projects.insert(address, project), ..self }
    }

    /// The ledger after the pledge that `receipt` records has been accepted
    /// and the receipt stored at `address`: the funds have moved, the
    /// project's total has grown, and the receipt is the last one.
    pub open spec fn accepted(self, address: Seq<u8>, receipt: ReceiptView) -> LedgerView {
        LedgerView {
            balances: moved(self.balances, receipt.user, receipt.project, receipt.amount as nat),
            projects: self.projects.insert(
                receipt.project,
                self.projects[receipt.project].credited(receipt.amount),
            ),
            receipts: self.receipts.push(ReceiptEntry { address, receipt }),
            ..self
        }
    }
}

/// The receipts up to any point have raised no more than all of them.
pub proof fn lemma_raised_prefix(receipts: Seq<ReceiptEntry>, upto: int, project: Seq<u8>)
    requires
        0 <= upto <= receipts.len(),
    ensures
        raised_in(receipts.subrange(0, upto), project) <= raised_in(receipts, project),
    decreases receipts.len(),
{
    if upto == receipts.len() {
        assert(receipts.subrange(0, upto) =~= receipts);
    } else {
        lemma_raised_prefix(receipts.drop_last(), upto, project);
        assert(receipts.drop_last().subrange(0, upto) =~= receipts.subrange(0, upto));
    }
}

/// What a deposit of `amount` at `address` does to the ledger and hands
/// back: refused, with the ledger as it was, where the supply would leave
/// the range of `u64`.
pub open spec fn deposit_step(s: LedgerView, address: Seq<u8>, amount: u64) -> (
    LedgerView,
    Result<(), DonationError>,
) {
    if s.supply + amount > u64::MAX {
        (s, Err(DonationError::AmountOverflow))
    } else {
        (s.deposited(address, amount as nat), Ok(()))
    }
}

/// A project that no receipt points to has raised nothing.
pub proof fn lemma_raised_nothing(receipts: Seq<ReceiptEntry>, project: Seq<u8>)
    requires
        forall|i: int| 0 <= i < receipts.len() ==> (#[trigger] receipts[i]).receipt.project != project,
    ensures
        raised_in(receipts, project) == 0,
    decreases receipts.len(),
{
    if receipts.len() > 0 {
        let rest = receipts.drop_last();
        assert forall|i: int| 0 <= i < rest.len() implies (#[trigger] rest[i]).receipt.project != project by {
            assert(rest[i] == receipts[i]);
        }
        lemma_raised_nothing(rest, project);
        assert(receipts.last() == receipts[receipts.len() - 1]);
    }
}

/// One more receipt adds its amount to the project it points to, and to no other.
pub proof fn lemma_raised_push(receipts: Seq<ReceiptEntry>, entry: ReceiptEntry, project: Seq<u8>)
    ensures
        raised_in(receipts.push(entry), project) == raised_in(receipts, project) + if entry.receipt.project
            == project {
            entry.receipt.amount as nat
        } else {
            0
        },
{
    assert(receipts.push(entry).drop_last() =~= receipts);
    assert(receipts.push(entry).last() == entry);
}

/// A deposit keeps the ledger consistent.
pub proof fn lemma_deposited_consistent(s: LedgerView, address: Seq<u8>, amount: nat)
    requires
        s.consistent(),
    ensures
        s.deposited(address, amount).consistent(),
{
}

/// Storing a project that fits and has raised nothing at an unused address
/// keeps the ledger consistent.
pub proof fn lemma_with_project_consistent(s: LedgerView, address: Seq<u8>, project: ProjectView)
    requires
        s.consistent(),
        !s.in_use(address),
        project.current_amount == 0,
        record_fits(project.project_id, project.metadata),
    ensures
        s.with_project(address, project).consistent(),
{
    let t = s.with_project(address, project);
    assert forall|i: int| 0 <= i < s.receipts.len() implies (#[trigger] s.receipts[i]).receipt.project
        != address by {}
    lemma_raised_nothing(s.receipts, address);
    assert forall|i: int| 0 <= i < t.receipts.len() implies {
        let e = #[trigger] t.receipts[i];
        &&& !t.projects.dom().contains(e.address)
        &&& t.projects.dom().contains(e.receipt.project)
        &&& e.receipt.timestamp < t.projects[e.receipt.project].end_time
        &&& !e.receipt.refunded
    } by {
        assert(s.receipts[i].address != address);
    }
}

/// Accepting a pledge to a stored project before its deadline, with a total
/// that stays in range and a receipt at an unused address, keeps the ledger
/// consistent.
pub proof fn lemma_accepted_consistent(s: LedgerView, address: Seq<u8>, receipt: ReceiptView)
    requires
        s.consistent(),
        s.projects.dom().contains(receipt.project),
        receipt.timestamp < s.projects[receipt.project].end_time,
        !receipt.refunded,
        s.projects[receipt.project].current_amount + receipt.amount <= u64::MAX,
        !s.in_use(address),
    ensures
        s.accepted(address, receipt).consistent(),
{
    let t = s.accepted(address, receipt);
    let entry = ReceiptEntry { address, receipt };
    assert forall|i: int, j: int| 0 <= i < j < t.receipts.len() implies (#[trigger] t.receipts[i]).address != (
    #[trigger] t.receipts[j]).address by {
        if j < s.receipts.len() {
            assert(t.receipts[i] == s.receipts[i]);
            assert(t.receipts[j] == s.receipts[j]);
        } else {
            assert(t.receipts[i] == s.receipts[i]);
        }
    }
    assert forall|i: int| 0 <= i < t.receipts.len() implies {
        let e = #[trigger] t.receipts[i];
        &&& !t.projects.dom().contains(e.address)
        &&& t.projects.dom().contains(e.receipt.project)
        &&& e.receipt.timestamp < t.projects[e.receipt.project].end_time
        &&& !e.receipt.refunded
    } by {
        if i < s.receipts.len() {
            assert(t.receipts[i] == s.receipts[i]);
        }
    }
    assert forall|p: Seq<u8>| #[trigger] t.projects.dom().contains(p) implies {
        &&& t.projects[p].current_amount == raised_in(t.receipts, p)
        &&& record_fits(t.projects[p].project_id, t.projects[p].metadata)
    } by {
        lemma_raised_push(s.receipts, entry, p);
    }
}

/// Some key of `keys` has the bytes `a`.
spec fn holds(keys: Seq<Address>, a: Seq<u8>) -> bool {
    exists|i: int| 0 <= i < keys.len() && (#[trigger] keys[i])@ == a
}

/// An index at which `keys` has the bytes `a`.
spec fn slot(keys: Seq<Address>, a: Seq<u8>) -> int {
    choose|i: int| 0 <= i < keys.len() && (#[trigger] keys[i])@ == a
}

/// No two keys have the same bytes.
spec fn distinct(keys: Seq<Address>) -> bool {
    forall|i: int, j: int| 0 <= i < j < keys.len() ==> (#[trigger] keys[i])@ != (#[trigger] keys[j])@
}

/// Sum of `amounts`.
spec fn total(amounts: Seq<u64>) -> nat
    decreases amounts.len(),
{
    if amounts.len() == 0 {
        0
    } else {
        total(amounts.drop_last()) + amounts.last() as nat
    }
}

proof fn lemma_slot(keys: Seq<Address>, i: int)
    requires
        distinct(keys),
        0 <= i < keys.len(),
    ensures
        holds(keys, keys[i]@),
        slot(keys, keys[i]@) == i,
{
    let a = keys[i]@;
    let j = slot(keys, a);
    assert(0 <= j < keys.len() && keys[j]@ == a);
    if j < i {
        assert(keys[j]@ != keys[i]@);
    } else if i < j {
        assert(keys[i]@ != keys[j]@);
    }
}

proof fn lemma_push_key(keys: Seq<Address>, key: Address)
    requires
        distinct(keys),
        !holds(keys, key@),
    ensures
        distinct(keys.push(key)),
        holds(keys.push(key), key@),
        slot(keys.push(key), key@) == keys.len(),
        forall|a: Seq<u8>| #[trigger] holds(keys.push(key), a) <==> holds(keys, a) || a == key@,
        forall|a: Seq<u8>| #[trigger] holds(keys, a) ==> slot(keys.push(key), a) == slot(keys, a),
{
    let more = keys.push(key);
    assert forall|i: int, j: int| 0 <= i < j < more.len() implies (#[trigger] more[i])@ != (#[trigger] more[j])@ by {
        if j < keys.len() {
            assert(more[i] == keys[i] && more[j] == keys[j]);
        } else {
            assert(more[i] == keys[i]);
        }
    }
    assert(more[keys.len() as int] == key);
    lemma_slot(more, keys.len() as int);
    assert forall|a: Seq<u8>| #[trigger] holds(more, a) <==> holds(keys, a) || a == key@ by {
        if holds(more, a) {
            let i = slot(more, a);
            if i < keys.len() {
                assert(keys[i] == more[i]);
            }
        }
        if holds(keys, a) {
            let i = slot(keys, a);
            assert(more[i] == keys[i]);
        }
    }
    assert forall|a: Seq<u8>| #[trigger] holds(keys, a) implies slot(more, a) == slot(keys, a) by {
        let i = slot(keys, a);
        assert(more[i] == keys[i]);
        lemma_slot(more, i);
    }
}

proof fn lemma_total_push(amounts: Seq<u64>, amount: u64)
    ensures
        total(amounts.push(amount)) == total(amounts) + amount,
{
    assert(amounts.push(amount).drop_last() =~= amounts);
}

proof fn lemma_total_update(amounts: Seq<u64>, i: int, amount: u64)
    requires
        0 <= i < amounts.len(),
    ensures
        total(amounts.update(i, amount)) == total(amounts) - amounts[i] + amount,
        amounts[i] <= total(amounts),
    decreases amounts.len(),
{
    let changed = amounts.update(i, amount);
    if i == amounts.len() - 1 {
        assert(changed.drop_last() =~= amounts.drop_last());
    } else {
        lemma_total_update(amounts.drop_last(), i, amount);
        assert(changed.drop_last() =~= amounts.drop_last().update(i, amount));
    }
}

/// The index of the key with the bytes of `a`, if there is one.
fn position(keys: &Vec<Address>, a: &Address) -> (r: Option<usize>)
    ensures
        match r {
            Some(i) => i < keys.len() && keys[i as int]@ == a@,
            None => !holds(keys@, a@),
        },
{
    let mut i: usize = 0;
    while i < keys.len()
        invariant
            i <= keys.len(),
            forall|j: int| 0 <= j < i ==> (#[trigger] keys[j])@ != a@,
        decreases keys.len() - i,
    {
        if keys[i].same(a) {
            return Some(i);
        }
        i += 1;
    }
    None
}

/// The ledger: an execution environment held in memory (a clock, balances,
/// and records stored by address, each address written once) with the
/// projects and receipts that live in it.
pub struct Ledger {
    clock: i64,
    supply: u64,
    holders: Vec<Address>,
    lamports: Vec<u64>,
    project_keys: Vec<Address>,
    projects: Vec<Project>,
    receipt_keys: Vec<Address>,
    receipts: Vec<DonationReceipt>,
}

impl View for Ledger {
    type V = LedgerView;

    closed spec fn view(&self) -> LedgerView {
        LedgerView {
            now: self.clock,
            supply: self.supply as nat,
            balances: Map::total(
                |a: Seq<u8>|
                    if holds(self.holders@, a) {
                        self.lamports@[slot(self.holders@, a)] as nat
                    } else {
                        0nat
                    },
            ),
            projects: Map::new(
                |a: Seq<u8>| holds(self.project_keys@, a),
                |a: Seq<u8>| self.projects@[slot(self.project_keys@, a)]@,
            ),
            receipts: Seq::new(
                self.receipts@.len(),
                |i: int| ReceiptEntry { address: self.receipt_keys@[i]@, receipt: self.receipts@[i]@ },
            ),
        }
    }
}

impl Ledger {
    /// One amount per holder, and no holder twice.
    spec fn purse(&self) -> bool {
        self.holders.len() == self.lamports.len() && distinct(self.holders@)
    }

    /// How the ledger is laid out: one amount per holder, one record per key,
    /// no key twice, and the supply is the sum of all balances.
    pub closed spec fn laid_out(&self) -> bool {
        &&& self.purse()
        &&& self.project_keys.len() == self.projects.len()
        &&& self.receipt_keys.len() == self.receipts.len()
        &&& distinct(self.project_keys@)
        &&& total(self.lamports@) == self.supply
    }

    /// The ledger is valid: laid out properly, and consistent.
    pub open spec fn wf(&self) -> bool {
        self.laid_out() && self@.consistent()
    }

    /// An empty ledger with its clock at zero.
    pub fn new() -> (ledger: Ledger)
        ensures
            ledger.wf(),
            ledger@ == LedgerView::empty(),
    {
        let ledger = Ledger {
            clock: 0,
            supply: 0,
            holders: Vec::new(),
            lamports: Vec::new(),
            project_keys: Vec::new(),
            projects: Vec::new(),
            receipt_keys: Vec::new(),
            receipts: Vec::new(),
        };
        assert(ledger@.balances =~= LedgerView::empty().balances);
        assert(ledger@.projects =~= LedgerView::empty().projects);
        assert(ledger@.receipts =~= LedgerView::empty().receipts);
        ledger
    }

    /// The reading of the clock.
    pub fn now(&self) -> (now: i64)
        ensures
            now == self@.now,
    {
        self.clock
    }

    /// Sets the clock.
    pub fn set_time(&mut self, now: i64)
        requires
            old(self).wf(),
        ensures
            final(self).wf(),
            final(self)@ == old(self)@.at_time(now),
    {
        self.clock = now;
        assert(self@.balances =~= old(self)@.balances);
        assert(self@.projects =~= old(self)@.projects);
        assert(self@.receipts =~= old(self)@.receipts);
    }

    /// The balance at `address`; zero where nothing was ever put.
    pub fn balance_of(&self, address: &Address) -> (balance: u64)
        requires
            self.wf(),
        ensures
            balance == self@.balances[address@],
    {
        match position(&self.holders, address) {
            Some(i) => {
                proof {
                    lemma_slot(self.holders@, i as int);
                }
                self.lamports[i]
            },
            None => 0,
        }
    }

    /// The money in existence: the sum of all balances.
    pub fn supply(&self) -> (supply: u64)
        ensures
            supply == self@.supply,
    {
        self.supply
    }

    /// The project stored at `address`, if there is one.
    pub fn project(&self, address: &Address) -> (r: Option<&Project>)
        requires
            self.wf(),
        ensures
            match r {
                Some(project) => self@.projects.dom().contains(address@) && project@
                    == self@.projects[address@],
                None => !self@.projects.dom().contains(address@),
            },
    {
        match position(&self.project_keys, address) {
            Some(i) => {
                proof {
                    lemma_slot(self.project_keys@, i as int);
                }
                Some(&self.projects[i])
            },
            None => None,
        }
    }

    /// The receipt stored at `address`, if there is one.
    pub fn receipt(&self, address: &Address) -> (r: Option<DonationReceipt>)
        requires
            self.wf(),
        ensures
            match r {
                Some(receipt) => self@.has_receipt(address@) && receipt@ == self@.receipt_at(address@),
                None => !self@.has_receipt(address@),
            },
    {
        match position(&self.receipt_keys, address) {
            Some(i) => {
                proof {
                    let s = self@;
                    assert(s.receipts[i as int].address == address@);
                    let k = choose|k: int| 0 <= k < s.receipts.len() && (#[trigger] s.receipts[k]).address == address@;
                    if k < i {
                        assert(s.receipts[k].address != s.receipts[i as int].address);
                    } else if i < k {
                        assert(s.receipts[i as int].address != s.receipts[k].address);
                    }
                }
                Some(self.receipts[i])
            },
            None => {
                proof {
                    let s = self@;
                    if s.has_receipt(address@) {
                        let k = choose|k: int| 0 <= k < s.receipts.len() && (#[trigger] s.receipts[k]).address == address@;
                        assert(self.receipt_keys@[k]@ == address@);
                    }
                }
                None
            },
        }
    }

    /// The receipts in the order in which their pledges were accepted.
    pub fn receipts(&self) -> (all: &Vec<DonationReceipt>)
        requires
            self.wf(),
        ensures
            all.len() == self@.receipts.len(),
            forall|i: int| 0 <= i < all.len() ==> (#[trigger] all[i])@ == self@.receipts[i].receipt,
    {
        &self.receipts
    }

    /// Adds up the receipts that point to `project`: what the project has
    /// raised, and so, for a stored project, its running total.
    pub fn raised(&self, project: &Address) -> (sum: u64)
        requires
            self.wf(),
        ensures
            sum == self@.raised(project@),
            self@.projects.dom().contains(project@) ==> sum == self@.projects[project@].current_amount,
    {
        let ghost all = self@.receipts;
        let mut sum: u64 = 0;
        let mut i: usize = 0;
        assert(all.subrange(0, 0) =~= Seq::<ReceiptEntry>::empty());
        while i < self.receipts.len()
            invariant
                self.wf(),
                all == self@.receipts,
                all.len() == self.receipts.len(),
                i <= self.receipts.len(),
                sum == raised_in(all.subrange(0, i as int), project@),
            decreases self.receipts.len() - i,
        {
            let receipt = self.receipts[i];
            proof {
                assert(all[i as int].receipt == receipt@);
                assert(all.subrange(0, i + 1).drop_last() =~= all.subrange(0, i as int));
                assert(all.subrange(0, i + 1).last() == all[i as int]);
                lemma_raised_prefix(all, i + 1, project@);
            }
            if receipt.project.same(project) {
                sum = sum + receipt.amount;
            }
            i += 1;
        }
        assert(all.subrange(0, i as int) =~= all);
        sum
    }

    /// Whether a record, project or receipt, is stored at `address`.
    pub fn is_in_use(&self, address: &Address) -> (r: bool)
        requires
            self.wf(),
        ensures
            r == self@.in_use(address@),
    {
        if position(&self.project_keys, address).is_some() {
            return true;
        }
        match position(&self.receipt_keys, address) {
            Some(i) => {
                proof {
                    assert(self@.receipts[i as int].address == address@);
                }
                true
            },
            None => {
                proof {
                    let s = self@;
                    if s.has_receipt(address@) {
                        let k = choose|k: int| 0 <= k < s.receipts.len() && (#[trigger] s.receipts[k]).address == address@;
                        assert(self.receipt_keys@[k]@ == address@);
                    }
                }
                false
            },
        }
    }

    /// Adds `amount` to the balance of `key`, which gets an entry if it has none.
    fn raise(&mut self, key: Address, amount: u64)
        requires
            old(self).purse(),
            total(old(self).lamports@) + amount <= u64::MAX,
        ensures
            final(self).purse(),
            total(final(self).lamports@) == total(old(self).lamports@) + amount,
            final(self)@.balances == old(self)@.balances.insert(key@, old(self)@.balances[key@] + amount as nat),
            final(self).clock == old(self).clock,
            final(self).supply == old(self).supply,
            final(self).project_keys == old(self).project_keys,
            final(self).projects == old(self).projects,
            final(self).receipt_keys == old(self).receipt_keys,
            final(self).receipts == old(self).receipts,
    {
        let ghost before = self@.balances;
        match position(&self.holders, &key) {
            Some(i) => {
                proof {
                    lemma_slot(self.holders@, i as int);
                    lemma_total_update(self.lamports@, i as int, 0);
                    lemma_total_update(self.lamports@, i as int, (self.lamports@[i as int] + amount) as u64);
                }
                let sum = self.lamports[i] + amount;
                self.lamports[i] = sum;
                assert(self@.balances =~= before.insert(key@, before[key@] + amount as nat));
            },
            None => {
                proof {
                    lemma_push_key(self.holders@, key);
                    lemma_total_push(self.lamports@, amount);
                }
                self.holders.push(key);
                self.lamports.push(amount);
                assert(self@.balances =~= before.insert(key@, before[key@] + amount as nat));
            },
        }
    }

    /// Takes `amount` from the balance of `key`.
    fn lower(&mut self, key: Address, amount: u64)
        requires
            old(self).purse(),
            0 < amount <= old(self)@.balances[key@],
        ensures
            final(self).purse(),
            total(final(self).lamports@) == total(old(self).lamports@) - amount,
            final(self)@.balances == old(self)@.balances.insert(
                key@,
                (old(self)@.balances[key@] - amount) as nat,
            ),
            final(self).clock == old(self).clock,
            final(self).supply == old(self).supply,
            final(self).project_keys == old(self).project_keys,
            final(self).projects == old(self).projects,
            final(self).receipt_keys == old(self).receipt_keys,
            final(self).receipts == old(self).receipts,
    {
        let ghost before = self@.balances;
        match position(&self.holders, &key) {
            Some(i) => {
                proof {
                    lemma_slot(self.holders@, i as int);
                    lemma_total_update(self.lamports@, i as int, (self.lamports@[i as int] - amount) as u64);
                }
                let rest = self.lamports[i] - amount;
                self.lamports[i] = rest;
                assert(self@.balances =~= before.insert(key@, (before[key@] - amount) as nat));
            },
            None => {},
        }
    }

    /// Puts `amount` of new money at `address`. Refused, with the ledger
    /// unchanged, when the supply would leave the range of `u64`.
    pub fn deposit(&mut self, address: &Address, amount: u64) -> (r: Result<(), DonationError>)
        requires
            old(self).wf(),
        ensures
            final(self).wf(),
            final(self)@ == deposit_step(old(self)@, address@, amount).0,
            r == deposit_step(old(self)@, address@, amount).1,
    {
        match self.supply.checked_add(amount) {
            Some(supply) => {
                self.raise(*address, amount);
                self.supply = supply;
                proof {
                    assert(self@.projects =~= old(self)@.projects);
                    assert(self@.receipts =~= old(self)@.receipts);
                    lemma_deposited_consistent(old(self)@, address@, amount as nat);
                }
                Ok(())
            },
            None => Err(DonationError::AmountOverflow),
        }
    }

    /// Stores `project` at `address`.
    pub(crate) fn open_project(&mut self, address: Address, project: Project)
        requires
            old(self).wf(),
            !old(self)@.in_use(address@),
            project@.current_amount == 0,
            record_fits(project@.project_id, project@.metadata),
        ensures
            final(self).wf(),
            final(self)@ == old(self)@.with_project(address@, project@),
    {
        proof {
            lemma_push_key(self.project_keys@, address);
            lemma_with_project_consistent(self@, address@, project@);
        }
        self.project_keys.push(address);
        self.projects.push(project);
        assert(self@.balances =~= old(self)@.balances);
        assert(self@.receipts =~= old(self)@.receipts);
        assert(self@.projects =~= old(self)@.projects.insert(address@, project@));
    }

    /// Accepts the pledge that `receipt` records, all at once: moves the
    /// funds, adds the amount to the project's total, and stores the receipt
    /// at `address`.
    pub(crate) fn settle(&mut self, address: Address, receipt: DonationReceipt)
        requires
            old(self).wf(),
            old(self)@.projects.dom().contains(receipt@.project),
            receipt@.timestamp < old(self)@.projects[receipt@.project].end_time,
            !receipt@.refunded,
            receipt@.amount <= old(self)@.balances[receipt@.user],
            old(self)@.projects[receipt@.project].current_amount + receipt@.amount <= u64::MAX,
            !old(self)@.in_use(address@),
        ensures
            final(self).wf(),
            final(self)@ == old(self)@.accepted(address@, receipt@),
    {
        let amount = receipt.amount;
        let ghost before = self@;
        proof {
            lemma_accepted_consistent(before, address@, receipt@);
        }
        if amount > 0 && !receipt.user.same(&receipt.project) {
            self.lower(receipt.user, amount);
            self.raise(receipt.project, amount);
        }
        assert(self@.balances =~= moved(before.balances, receipt@.user, receipt@.project, amount as nat));
        match position(&self.project_keys, &receipt.project) {
            Some(k) => {
                proof {
                    lemma_slot(self.project_keys@, k as int);
                }
                let _ = self.projects[k].credit(amount);
            },
            None => {},
        }
        self.receipt_keys.push(address);
        self.receipts.push(receipt);
        assert(self@.projects =~= before.accepted(address@, receipt@).projects);
        assert(self@.receipts =~= before.accepted(address@, receipt@).receipts);
    }
}

} // verus!
