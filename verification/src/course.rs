//! The protocols run against the store: each one, statement by
//! statement, comes to what it does as one step.

use vstd::prelude::*;
use crate::key::Key;
use crate::model::{in_range, LedgerState};
use crate::payment::{amount_error, Payment, PaymentPhase};
use crate::registration::{Registration, RegistrationPhase};
use crate::store::{Progress, StoreAction};

verus! {

/// How many statements a payment in this phase has still to hear of.
pub open spec fn statements_left(phase: PaymentPhase) -> nat {
    match phase {
        PaymentPhase::Opening => 6,
        PaymentPhase::Reading => 5,
        PaymentPhase::Debiting => 4,
        PaymentPhase::Crediting => 3,
        PaymentPhase::Logging => 2,
        PaymentPhase::Committing => 1,
        PaymentPhase::Closed => 0,
    }
}

/// What holds of a payment under way that started on the store `before`
/// and has brought its working copy to `work`: each phase has done to the
/// copy what the payment as one step does up to there, and a payment that
/// is over ended as the one step does.
pub open spec fn payment_on_course(
    before: LedgerState,
    work: LedgerState,
    payment: Payment,
    progress: Progress,
    force: Option<bool>,
) -> bool {
    let from = payment.from.bits;
    let to = payment.to.bits;
    let amount = payment.amount;
    let outcome = before.pay(payment.to, payment.from, amount, force, payment.id);
    let payer_covers = before.balances.contains_key(from) && before.balances[from] >= amount;
    let debited = before.with_balance(from, -amount);
    match progress {
        Progress::Finished(r) => r == outcome.1 && (r is Ok ==> work == outcome.0),
        Progress::Perform(action) => amount_error(amount, force) is None && match payment.phase {
            PaymentPhase::Opening => action == StoreAction::Begin && work == before,
            PaymentPhase::Reading => action == (StoreAction::ReadBalance {
                account: payment.from,
            }) && work == before,
            PaymentPhase::Debiting => action == (StoreAction::Debit {
                account: payment.from,
                amount,
            }) && work == before && payer_covers,
            PaymentPhase::Crediting => action == (StoreAction::Credit {
                account: payment.to,
                amount,
            }) && payer_covers && in_range(before.balances[from] - amount) && work == debited,
            PaymentPhase::Logging => action == (StoreAction::InsertTransfer {
                record: payment.record(),
            }) && payer_covers && in_range(before.balances[from] - amount)
                && debited.balances.contains_key(to) && in_range(debited.balances[to] + amount)
                && work == debited.with_balance(to, amount as int),
            PaymentPhase::Committing => action == StoreAction::Commit && outcome.1 is Ok && work
                == outcome.0,
            PaymentPhase::Closed => false,
        },
    }
}

/// How many statements a registration in this phase has still to hear
/// of.
pub open spec fn bindings_left(phase: RegistrationPhase) -> nat {
    match phase {
        RegistrationPhase::Opening => 4,
        RegistrationPhase::CreatingAccount => 3,
        RegistrationPhase::BindingPerson => 2,
        RegistrationPhase::Committing => 1,
        RegistrationPhase::Closed => 0,
    }
}

/// What holds of a registration under way that started on the store
/// `before` and has brought its working copy to `work`.
pub open spec fn registration_on_course(
    before: LedgerState,
    work: LedgerState,
    registration: Registration,
    progress: Progress,
) -> bool {
    let id = registration.id;
    let discord_id = registration.discord_id;
    let outcome = before.register(discord_id, id);
    match progress {
        Progress::Finished(r) => r == outcome.1 && (r is Ok ==> work == outcome.0),
        Progress::Perform(action) => match registration.phase {
            RegistrationPhase::Opening => action == StoreAction::Begin && work == before,
            RegistrationPhase::CreatingAccount => action == (StoreAction::InsertAccount { id })
                && work == before,
            RegistrationPhase::BindingPerson => action == (StoreAction::InsertPerson {
                id,
                discord_id,
            }) && !before.balances.contains_key(id.bits) && work == (LedgerState {
                balances: before.balances.insert(id.bits, 0),
                ..before
            }),
            RegistrationPhase::Committing => action == StoreAction::Commit && outcome.1 is Ok
                && work == outcome.0,
            RegistrationPhase::Closed => false,
        },
    }
}

/// A payment starts on course.
pub proof fn lemma_payment_starts_on_course(
    s: LedgerState,
    to: Key,
    from: Key,
    amount: i64,
    force: Option<bool>,
    id: Key,
)
    ensures
        payment_on_course(
            s,
            s,
            Payment::start_spec(to, from, amount, force, id).0,
            Payment::start_spec(to, from, amount, force, id).1,
            force,
        ),
{
}

/// A payment on course stays on course: after the store has run the
/// statement that the payment asked for and the payment has heard the
/// answer, what holds of a payment under way holds again, and the payment
/// is one statement nearer its end.
pub proof fn lemma_payment_stays_on_course(
    before: LedgerState,
    work: LedgerState,
    payment: Payment,
    action: StoreAction,
    force: Option<bool>,
)
    requires
        payment_on_course(before, work, payment, Progress::Perform(action), force),
    ensures
        ({
            let (after, reply) = work.answer(action);
            let (next, wanted) = payment.next_spec(reply);
            &&& payment_on_course(before, after, next, wanted, force)
            &&& statements_left(next.phase) < statements_left(payment.phase)
            &&& next.to == payment.to
            &&& next.from == payment.from
            &&& next.amount == payment.amount
            &&& next.id == payment.id
        }),
{
}

/// Where a payment stands after the store has run up to `steps` of its
/// statements, each answered as the store answers: the store, the
/// payment and what the payment wants next.
pub open spec fn payment_after(
    work: LedgerState,
    payment: Payment,
    progress: Progress,
    steps: nat,
) -> (LedgerState, Payment, Progress)
    decreases steps,
{
    match progress {
        Progress::Finished(_) => (work, payment, progress),
        Progress::Perform(action) => if steps == 0 {
            (work, payment, progress)
        } else {
            let (after, reply) = work.answer(action);
            let (next, wanted) = payment.next_spec(reply);
            payment_after(after, next, wanted, (steps - 1) as nat)
        },
    }
}

/// A payment on course, run for as many statements as it has left, is
/// over, and on course still.
pub proof fn lemma_payment_runs_on_course(
    before: LedgerState,
    work: LedgerState,
    payment: Payment,
    progress: Progress,
    force: Option<bool>,
    steps: nat,
)
    requires
        payment_on_course(before, work, payment, progress, force),
        progress is Perform ==> steps >= statements_left(payment.phase),
    ensures
        payment_after(work, payment, progress, steps).2 is Finished,
        payment_on_course(
            before,
            payment_after(work, payment, progress, steps).0,
            payment_after(work, payment, progress, steps).1,
            payment_after(work, payment, progress, steps).2,
            force,
        ),
        payment_after(work, payment, progress, steps).1.to == payment.to,
        payment_after(work, payment, progress, steps).1.from == payment.from,
        payment_after(work, payment, progress, steps).1.amount == payment.amount,
        payment_after(work, payment, progress, steps).1.id == payment.id,
    decreases steps,
{
    match progress {
        Progress::Finished(_) => {},
        Progress::Perform(action) => {
            lemma_payment_stays_on_course(before, work, payment, action, force);
            let (after, reply) = work.answer(action);
            let (next, wanted) = payment.next_spec(reply);
            lemma_payment_runs_on_course(before, after, next, wanted, force, (steps - 1) as nat);
        },
    }
}

/// The transfer protocol is the payment as one step. Run against the
/// store from its start, statement by statement, it is over after at most
/// six statements; it ends as the one step ends; and where it ends well,
/// the store that its transaction leaves is the store that the one step
/// leaves. Where it ends in an error its transaction is rolled back, which
/// leaves the store as the one step does: as it was.
pub proof fn lemma_protocol_is_payment(
    s: LedgerState,
    to: Key,
    from: Key,
    amount: i64,
    force: Option<bool>,
    id: Key,
)
    ensures
        ({
            let (payment, progress) = Payment::start_spec(to, from, amount, force, id);
            let (work, last, end) = payment_after(s, payment, progress, 6);
            let (after, result) = s.pay(to, from, amount, force, id);
            &&& end == Progress::Finished(result)
            &&& result is Ok ==> work == after
            &&& result is Err ==> after == s
        }),
{
    let (payment, progress) = Payment::start_spec(to, from, amount, force, id);
    lemma_payment_starts_on_course(s, to, from, amount, force, id);
    lemma_payment_runs_on_course(s, s, payment, progress, force, 6);
}

/// A registration starts on course.
pub proof fn lemma_registration_starts_on_course(s: LedgerState, discord_id: u64, id: Key)
    ensures
        registration_on_course(
            s,
            s,
            Registration::start_spec(discord_id, id).0,
            Registration::start_spec(discord_id, id).1,
        ),
{
}

/// A registration on course stays on course, and is one statement nearer
/// its end.
pub proof fn lemma_registration_stays_on_course(
    before: LedgerState,
    work: LedgerState,
    registration: Registration,
    action: StoreAction,
)
    requires
        before.wf(),
        registration_on_course(before, work, registration, Progress::Perform(action)),
    ensures
        ({
            let (after, reply) = work.answer(action);
            let (next, wanted) = registration.next_spec(reply);
            &&& registration_on_course(before, after, next, wanted)
            &&& bindings_left(next.phase) < bindings_left(registration.phase)
            &&& next.discord_id == registration.discord_id
            &&& next.id == registration.id
        }),
{
    if registration.phase == RegistrationPhase::BindingPerson {
        let id = registration.id;
        if work.is_owned(id.bits) {
            let d = choose|d: u64| #[trigger]
                work.persons.contains_key(d) && work.persons[d] == id.bits;
            assert(before.persons.contains_key(d));
            assert(before.balances.contains_key(before.persons[d]));
        }
    }
}

/// Where a registration stands after the store has run up to `steps` of
/// its statements.
pub open spec fn registration_after(
    work: LedgerState,
    registration: Registration,
    progress: Progress,
    steps: nat,
) -> (LedgerState, Registration, Progress)
    decreases steps,
{
    match progress {
        Progress::Finished(_) => (work, registration, progress),
        Progress::Perform(action) => if steps == 0 {
            (work, registration, progress)
        } else {
            let (after, reply) = work.answer(action);
            let (next, wanted) = registration.next_spec(reply);
            registration_after(after, next, wanted, (steps - 1) as nat)
        },
    }
}

/// A registration on course, run for as many statements as it has left,
/// is over, and on course still.
pub proof fn lemma_registration_runs_on_course(
    before: LedgerState,
    work: LedgerState,
    registration: Registration,
    progress: Progress,
    steps: nat,
)
    requires
        before.wf(),
        registration_on_course(before, work, registration, progress),
        progress is Perform ==> steps >= bindings_left(registration.phase),
    ensures
        registration_after(work, registration, progress, steps).2 is Finished,
        registration_on_course(
            before,
            registration_after(work, registration, progress, steps).0,
            registration_after(work, registration, progress, steps).1,
            registration_after(work, registration, progress, steps).2,
        ),
        registration_after(work, registration, progress, steps).1.discord_id
            == registration.discord_id,
        registration_after(work, registration, progress, steps).1.id == registration.id,
    decreases steps,
{
    match progress {
        Progress::Finished(_) => {},
        Progress::Perform(action) => {
            lemma_registration_stays_on_course(before, work, registration, action);
            let (after, reply) = work.answer(action);
            let (next, wanted) = registration.next_spec(reply);
            lemma_registration_runs_on_course(before, after, next, wanted, (steps - 1) as nat);
        },
    }
}

/// The registration protocol is the registration as one step: run against
/// a well-formed store, it is over after at most four statements, ends as
/// the one step ends, and where it ends well leaves the store that the one
/// step leaves.
pub proof fn lemma_protocol_is_registration(s: LedgerState, discord_id: u64, id: Key)
    requires
        s.wf(),
    ensures
        ({
            let (registration, progress) = Registration::start_spec(discord_id, id);
            let (work, last, end) = registration_after(s, registration, progress, 4);
            let (after, result) = s.register(discord_id, id);
            &&& end == Progress::Finished(result)
            &&& result is Ok ==> work == after
            &&& result is Err ==> after == s
        }),
{
    let (registration, progress) = Registration::start_spec(discord_id, id);
    lemma_registration_starts_on_course(s, discord_id, id);
    lemma_registration_runs_on_course(s, s, registration, progress, 4);
}

} // verus!
