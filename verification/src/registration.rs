//! The registration protocol: a new account, and a platform identifier
//! bound to it, or neither.

use vstd::prelude::*;
use crate::error::{Error, StoreFault, UniqueValueError};
use crate::key::Key;
use crate::payment::out_of_turn;
use crate::store::{Progress, StoreAction, StoreReply};

verus! {

/// The kind of resource that a platform identifier is bound as, and that
/// a lookup by platform identifier finds.
pub const PERSON: &'static str = "person";

/// How far a registration has come: the statement whose answer it waits
/// for.
#[derive(Debug, Clone, Copy, PartialEq, Eq, Structural)]
pub enum RegistrationPhase {
    /// The transaction is being opened.
    Opening,
    /// The account is being created.
    CreatingAccount,
    /// The platform identifier is being bound to the account.
    BindingPerson,
    /// The transaction is being committed.
    Committing,
    /// The registration is over.
    Closed,
}

/// A registration under way.
#[derive(Debug, Clone, Copy, PartialEq, Eq, Structural)]
pub struct Registration {
    /// The platform identifier that is registered.
    pub discord_id: u64,
    /// The key of the account that is made for it.
    pub id: Key,
    /// How far the registration has come.
    pub phase: RegistrationPhase,
}

impl Registration {
    /// The registration in another phase.
    pub open spec fn at(self, phase: RegistrationPhase) -> Registration {
        Registration { phase, ..self }
    }

    /// How a registration starts: it opens a transaction.
    pub open spec fn start_spec(discord_id: u64, id: Key) -> (Registration, Progress) {
        (
            Registration { discord_id, id, phase: RegistrationPhase::Opening },
            Progress::Perform(StoreAction::Begin),
        )
    }

    /// How a registration goes on after the store's answer to its last
    /// statement. In order: create the account; bind the platform
    /// identifier to it; commit. A failed statement ends the registration
    /// with the store's fault; only where the binding fails because it
    /// exists already, the registration ends by saying that the person
    /// exists.
    pub open spec fn next_spec(self, reply: StoreReply) -> (Registration, Progress) {
        let closed = self.at(RegistrationPhase::Closed);
        match (self.phase, reply) {
            (RegistrationPhase::Closed, _) => (closed, out_of_turn()),
            (_, StoreReply::Balance(_)) => (closed, out_of_turn()),
            (RegistrationPhase::BindingPerson, StoreReply::Failed(fault)) => (
                closed,
                Progress::Finished(Err::<(), StoreFault>(fault).unique_or(PERSON)),
            ),
            (_, StoreReply::Failed(fault)) => (
                closed,
                Progress::Finished(Err(Error::Database(fault))),
            ),
            (RegistrationPhase::Opening, StoreReply::Done { rows }) => (
                self.at(RegistrationPhase::CreatingAccount),
                Progress::Perform(StoreAction::InsertAccount { id: self.id }),
            ),
            (RegistrationPhase::CreatingAccount, StoreReply::Done { rows }) => (
                self.at(RegistrationPhase::BindingPerson),
                Progress::Perform(
                    StoreAction::InsertPerson { id: self.id, discord_id: self.discord_id },
                ),
            ),
            (RegistrationPhase::BindingPerson, StoreReply::Done { rows }) => (
                self.at(RegistrationPhase::Committing),
                Progress::Perform(StoreAction::Commit),
            ),
            (RegistrationPhase::Committing, StoreReply::Done { rows }) => (
                closed,
                Progress::Finished(Ok(())),
            ),
        }
    }

    /// Starts the registration of `discord_id` with an account under the
    /// key `id`.
    pub fn start(discord_id: u64, id: Key) -> (r: (Registration, Progress))
        ensures
            r == Registration::start_spec(discord_id, id),
    {
        (
            Registration { discord_id, id, phase: RegistrationPhase::Opening },
            Progress::Perform(StoreAction::Begin),
        )
    }

    /// The registration in its next phase, and the statement of that
    /// phase.
    fn go_on(self, phase: RegistrationPhase, action: StoreAction) -> (r: (Registration, Progress))
        ensures
            r == (self.at(phase), Progress::Perform(action)),
    {
        (Registration { phase, ..self }, Progress::Perform(action))
    }

    /// The registration, over with this result.
    fn finish(self, result: Result<(), Error>) -> (r: (Registration, Progress))
        ensures
            r == (self.at(RegistrationPhase::Closed), Progress::Finished(result)),
    {
        (Registration { phase: RegistrationPhase::Closed, ..self }, Progress::Finished(result))
    }

    /// Takes the store's answer to the last statement and says what the
    /// registration wants next.
    pub fn next(self, reply: StoreReply) -> (r: (Registration, Progress))
        ensures
            r == self.next_spec(reply),
    {
        match self.phase {
            RegistrationPhase::Closed => self.finish(Err(Error::Database(StoreFault::Other))),
            phase => match reply {
                StoreReply::Balance(_) => self.finish(Err(Error::Database(StoreFault::Other))),
                StoreReply::Failed(fault) => match phase {
                    RegistrationPhase::BindingPerson => {
                        let failed: Result<(), StoreFault> = Err(fault);
                        self.finish(failed.or_already_exists(PERSON))
                    },
                    _ => self.finish(Err(Error::Database(fault))),
                },
                StoreReply::Done { rows } => match phase {
                    RegistrationPhase::Opening => self.go_on(
                        RegistrationPhase::CreatingAccount,
                        StoreAction::InsertAccount { id: self.id },
                    ),
                    RegistrationPhase::CreatingAccount => self.go_on(
                        RegistrationPhase::BindingPerson,
                        StoreAction::InsertPerson { id: self.id, discord_id: self.discord_id },
                    ),
                    RegistrationPhase::BindingPerson => self.go_on(
                        RegistrationPhase::Committing,
                        StoreAction::Commit,
                    ),
                    _ => self.finish(Ok(())),
                },
            },
        }
    }
}

} // verus!
