use crate::address::{find_project_address, found_view, outcome_view, project_address, Address};
use crate::errors::DonationError;
use crate::ledger::{Ledger, LedgerView};
use vstd::prelude::*;
use vstd::utf8::encode_utf8;

verus! {

/// Bytes that precede the fields of every stored record.
pub const ANCHOR_DISCRIMINATOR_SIZE: usize = 8;

/// Most bytes a project's identifier may take.
pub const MAX_PROJECT_ID_LEN: usize = 32;

/// Most bytes a project's title may take.
pub const MAX_TITLE_LEN: usize = 100;

/// Most bytes a project's description may take.
pub const MAX_DESCRIPTION_LEN: usize = 500;

/// Most bytes a project's image link may take.
pub const MAX_IMAGE_URL_LEN: usize = 200;

/// Number of bytes that `text` takes when stored.
pub open spec fn stored_len(text: Seq<char>) -> nat {
    encode_utf8(text).len()
}

/// Number of bytes that `text` takes when stored.
pub fn byte_len(text: &String) -> (n: usize)
    ensures
        n == stored_len(text@),
{
    text.as_str().as_bytes().len()
}

/// Free-form display data of a project.
#[derive(Clone, Debug)]
pub struct ProjectMetadata {
    pub title: String,
    pub description: String,
    pub image_url: String,
}

/// What a `ProjectMetadata` holds.
pub struct MetadataView {
    pub title: Seq<char>,
    pub description: Seq<char>,
    pub image_url: Seq<char>,
}

impl MetadataView {
    /// Every field is within the room that a project record reserves for it.
    pub open spec fn fits(self) -> bool {
        &&& stored_len(self.title) <= MAX_TITLE_LEN
        &&& stored_len(self.description) <= MAX_DESCRIPTION_LEN
        &&& stored_len(self.image_url) <= MAX_IMAGE_URL_LEN
    }
}

impl View for ProjectMetadata {
    type V = MetadataView;

    open spec fn view(&self) -> MetadataView {
        MetadataView {
            title: self.title@,
            description: self.description@,
            image_url: self.image_url@,
        }
    }
}

impl ProjectMetadata {
    /// Whether every field is within the room that a project record reserves for it.
    pub fn fits(&self) -> (r: bool)
        ensures
            r == self@.fits(),
    {
        byte_len(&self.title) <= MAX_TITLE_LEN
            && byte_len(&self.description) <= MAX_DESCRIPTION_LEN
            && byte_len(&self.image_url) <= MAX_IMAGE_URL_LEN
    }
}

/// What a `Project` holds.
pub struct ProjectView {
    pub owner: Seq<u8>,
    pub project_id: Seq<char>,
    pub metadata: MetadataView,
    pub target_amount: u64,
    pub current_amount: u64,
    pub end_time: i64,
    pub bump: u8,
}

impl ProjectView {
    /// The record of a project that has just been created.
    pub open spec fn fresh(
        owner: Seq<u8>,
        project_id: Seq<char>,
        metadata: MetadataView,
        target_amount: u64,
        end_time: i64,
        bump: u8,
    ) -> ProjectView {
        ProjectView { owner, project_id, metadata, target_amount, current_amount: 0, end_time, bump }
    }

    /// Pledges are accepted at time `now`.
    pub open spec fn is_open(self, now: i64) -> bool {
        now < self.end_time
    }

    /// The record after a pledge of `amount` has been added to the running total.
    pub open spec fn credited(self, amount: u64) -> ProjectView {
        ProjectView { current_amount: (self.current_amount + amount) as u64, ..self }
    }
}

/// The identifier and the display data are within the room that a project
/// record reserves for them.
pub open spec fn record_fits(project_id: Seq<char>, metadata: MetadataView) -> bool {
    stored_len(project_id) <= MAX_PROJECT_ID_LEN && metadata.fits()
}

/// A fundraising campaign: a goal, a deadline and the running total of pledges.
#[derive(Debug)]
pub struct Project {
    owner: Address,
    project_id: String,
    metadata: ProjectMetadata,
    target_amount: u64,
    current_amount: u64,
    end_time: i64,
    bump: u8,
}

impl View for Project {
    type V = ProjectView;

    closed spec fn view(&self) -> ProjectView {
        ProjectView {
            owner: self.owner@,
            project_id: self.project_id@,
            metadata: self.metadata@,
            target_amount: self.target_amount,
            current_amount: self.current_amount,
            end_time: self.end_time,
            bump: self.bump,
        }
    }
}

impl Project {
    /// Fills a new record: nothing raised yet, every other field as given.
    /// Refused when a text field is longer than the record has room for.
    pub fn new(
        owner: Address,
        project_id: String,
        metadata: ProjectMetadata,
        target_amount: u64,
        end_time: i64,
        bump: u8,
    ) -> (r: Result<Project, DonationError>)
        ensures
            record_fits(project_id@, metadata@) ==> r is Ok && r->Ok_0@ == ProjectView::fresh(
                owner@,
                project_id@,
                metadata@,
                target_amount,
                end_time,
                bump,
            ),
            !record_fits(project_id@, metadata@) ==> r == Err::<Project, DonationError>(
                DonationError::FieldTooLong,
            ),
    {
        if byte_len(&project_id) > MAX_PROJECT_ID_LEN || !metadata.fits() {
            return Err(DonationError::FieldTooLong);
        }
        Ok(Project { owner, project_id, metadata, target_amount, current_amount: 0, end_time, bump })
    }

    /// The record with every field as it was read from where it is kept.
    pub fn stored(
        owner: Address,
        project_id: String,
        metadata: ProjectMetadata,
        target_amount: u64,
        current_amount: u64,
        end_time: i64,
        bump: u8,
    ) -> (project: Project)
        ensures
            project@ == (ProjectView {
                owner: owner@,
                project_id: project_id@,
                metadata: metadata@,
                target_amount,
                current_amount,
                end_time,
                bump,
            }),
    {
        Project { owner, project_id, metadata, target_amount, current_amount, end_time, bump }
    }

    /// Whether pledges are accepted at time `now`: strictly before the deadline.
    pub fn is_open(&self, now: i64) -> (r: bool)
        ensures
            r == self@.is_open(now),
    {
        now < self.end_time
    }

    /// The deadline rule as a check: passes strictly before the deadline.
    pub fn check_open(&self, now: i64) -> (r: Result<(), DonationError>)
        ensures
            self@.is_open(now) ==> r is Ok,
            !self@.is_open(now) ==> r == Err::<(), DonationError>(DonationError::ProjectExpired),
    {
        if now < self.end_time {
            Ok(())
        } else {
            Err(DonationError::ProjectExpired)
        }
    }

    /// Adds an accepted pledge to the running total. Refused, with the
    /// record unchanged, when the total would leave the range of `u64`.
    pub fn credit(&mut self, amount: u64) -> (r: Result<(), DonationError>)
        ensures
            old(self)@.current_amount + amount <= u64::MAX ==> r is Ok && final(self)@ == old(
                self,
            )@.credited(amount),
            old(self)@.current_amount + amount > u64::MAX ==> r == Err::<(), DonationError>(
                DonationError::AmountOverflow,
            ) && *final(self) == *old(self),
    {
        match self.current_amount.checked_add(amount) {
            Some(total) => {
                self.current_amount = total;
                Ok(())
            },
            None => Err(DonationError::AmountOverflow),
        }
    }

    /// Who created the project.
    pub fn owner(&self) -> (r: Address)
        ensures
            r@ == self@.owner,
    {
        self.owner
    }

    /// The identifier that the owner gave the project.
    pub fn project_id(&self) -> (r: &String)
        ensures
            r@ == self@.project_id,
    {
        &self.project_id
    }

    /// The display data.
    pub fn metadata(&self) -> (r: &ProjectMetadata)
        ensures
            r@ == self@.metadata,
    {
        &self.metadata
    }

    /// The funding goal.
    pub fn target_amount(&self) -> (r: u64)
        ensures
            r == self@.target_amount,
    {
        self.target_amount
    }

    /// The running total of accepted pledges.
    pub fn current_amount(&self) -> (r: u64)
        ensures
            r == self@.current_amount,
    {
        self.current_amount
    }

    /// The deadline: pledges are accepted strictly before it.
    pub fn end_time(&self) -> (r: i64)
        ensures
            r == self@.end_time,
    {
        self.end_time
    }

    /// The bump under which the project's address was found.
    pub fn bump(&self) -> (r: u8)
        ensures
            r == self@.bump,
    {
        self.bump
    }
}

/// The accounts of a request to create a project.
#[derive(Clone, Copy, Debug)]
pub struct InitProject {
    /// Who creates the project, and owns it from then on.
    pub owner: Address,
}

/// What creating a project does to the ledger and hands back, given the
/// outcome `found` of the address search. In this order: an identifier
/// that is too long to be a seed names no project; without an address there
/// is nothing to create; an address that holds a record is never written
/// again; display data that does not fit is not stored; otherwise the fresh
/// project is stored at the address, which is handed back. Whatever is
/// refused leaves the ledger as it was.
pub open spec fn init_project_step(
    s: LedgerView,
    owner: Seq<u8>,
    found: Option<(Seq<u8>, u8)>,
    project_id: Seq<char>,
    metadata: MetadataView,
    target_amount: u64,
    end_time: i64,
) -> (LedgerView, Result<Seq<u8>, DonationError>) {
    if stored_len(project_id) > MAX_PROJECT_ID_LEN {
        (s, Err(DonationError::FieldTooLong))
    } else {
        match found {
            None => (s, Err(DonationError::AddressSpaceExhausted)),
            Some((address, bump)) => if s.in_use(address) {
                (s, Err(DonationError::AddressAlreadyInUse))
            } else if !metadata.fits() {
                (s, Err(DonationError::FieldTooLong))
            } else {
                (
                    s.with_project(
                        address,
                        ProjectView::fresh(owner, project_id, metadata, target_amount, end_time, bump),
                    ),
                    Ok(address),
                )
            },
        }
    }
}

/// Creates a project at the address that an address search has yielded.
pub fn init_project_at(
    ledger: &mut Ledger,
    accounts: &InitProject,
    found: Option<(Address, u8)>,
    project_id: String,
    metadata: ProjectMetadata,
    target_amount: u64,
    end_time: i64,
) -> (r: Result<Address, DonationError>)
    requires
        old(ledger).wf(),
    ensures
        final(ledger).wf(),
        final(ledger)@ == init_project_step(
            old(ledger)@,
            accounts.owner@,
            found_view(found),
            project_id@,
            metadata@,
            target_amount,
            end_time,
        ).0,
        outcome_view(r) == init_project_step(
            old(ledger)@,
            accounts.owner@,
            found_view(found),
            project_id@,
            metadata@,
            target_amount,
            end_time,
        ).1,
{
    if byte_len(&project_id) > MAX_PROJECT_ID_LEN {
        return Err(DonationError::FieldTooLong);
    }
    let (address, bump) = match found {
        Some(pair) => pair,
        None => {
            return Err(DonationError::AddressSpaceExhausted);
        },
    };
    if ledger.is_in_use(&address) {
        return Err(DonationError::AddressAlreadyInUse);
    }
    match Project::new(accounts.owner, project_id, metadata, target_amount, end_time, bump) {
        Ok(project) => {
            ledger.open_project(address, project);
            Ok(address)
        },
        Err(e) => Err(e),
    }
}

/// Creates the project that `accounts.owner` names `project_id`, at the
/// address that belongs to that pair, and hands the address back. Neither
/// the goal nor the deadline is judged: a goal of zero and a deadline in the
/// past are taken as they come.
pub fn init_project(
    ledger: &mut Ledger,
    accounts: &InitProject,
    project_id: String,
    metadata: ProjectMetadata,
    target_amount: u64,
    end_time: i64,
) -> (r: Result<Address, DonationError>)
    requires
        old(ledger).wf(),
    ensures
        final(ledger).wf(),
        final(ledger)@ == init_project_step(
            old(ledger)@,
            accounts.owner@,
            project_address(accounts.owner@, project_id@),
            project_id@,
            metadata@,
            target_amount,
            end_time,
        ).0,
        outcome_view(r) == init_project_step(
            old(ledger)@,
            accounts.owner@,
            project_address(accounts.owner@, project_id@),
            project_id@,
            metadata@,
            target_amount,
            end_time,
        ).1,
{
    let found = find_project_address(&accounts.owner, &project_id);
    init_project_at(ledger, accounts, found, project_id, metadata, target_amount, end_time)
}

} // verus!
