//! What holds of the ledger whatever it holds.

use vstd::prelude::*;
use crate::error::Error;
use crate::key::Key;
use crate::model::{in_range, LedgerState};
use crate::payment::{amount_error, is_forced, NEGATIVE_MONEY, ZERO_MONEY};
use crate::registration::PERSON;
use crate::store::TransferRecord;

verus! {

/// A registration leaves a well-formed store well formed.
pub proof fn lemma_register_keeps_order(s: LedgerState, discord_id: u64, id: Key)
    requires
        s.wf(),
    ensures
        s.register(discord_id, id).0.wf(),
{
    let after = s.register(discord_id, id).0;
    if after != s {
        assert forall|d1: u64, d2: u64|
            #[trigger] after.persons.contains_key(d1) && #[trigger] after.persons.contains_key(d2)
                && after.persons[d1] == after.persons[d2] implies d1 == d2 by {
            if d1 != discord_id {
                assert(s.persons.contains_key(d1));
                assert(s.balances.contains_key(s.persons[d1]));
            }
            if d2 != discord_id {
                assert(s.persons.contains_key(d2));
                assert(s.balances.contains_key(s.persons[d2]));
            }
        }
        assert forall|d: u64| #[trigger] after.persons.contains_key(d) implies after.balances.contains_key(
            after.persons[d],
        ) by {
            if d != discord_id {
                assert(s.persons.contains_key(d));
            }
        }
    }
}

/// A payment leaves a well-formed store well formed.
pub proof fn lemma_pay_keeps_order(
    s: LedgerState,
    to: Key,
    from: Key,
    amount: i64,
    force: Option<bool>,
    id: Key,
)
    requires
        s.wf(),
    ensures
        s.pay(to, from, amount, force, id).0.wf(),
{
    let after = s.pay(to, from, amount, force, id).0;
    if after != s {
        assert(after.persons == s.persons);
        assert forall|d: u64| #[trigger] after.persons.contains_key(d) implies after.balances.contains_key(
            after.persons[d],
        ) by {
            assert(s.balances.contains_key(s.persons[d]));
        }
        assert forall|i: int, j: int| 0 <= i < j < after.log.len() implies (#[trigger] after.log[i]).id
            != (#[trigger] after.log[j]).id by {
            assert(after.log[i] == s.log[i]);
            if j < s.log.len() {
                assert(after.log[j] == s.log[j]);
            } else {
                assert(!s.has_record(id));
            }
        }
    }
}

/// Registering a platform identifier binds it to the new account, which
/// has nothing on it, and touches no other account, person or record.
pub proof fn lemma_registration_binds(s: LedgerState, discord_id: u64, id: Key)
    requires
        s.register(discord_id, id).1 is Ok,
    ensures
        s.register(discord_id, id).0.resolve(discord_id) == Ok::<Key, Error>(id),
        s.register(discord_id, id).0.balance(id) == Ok::<i64, Error>(0),
        forall|other: u128|
            other != id.bits ==> s.register(discord_id, id).0.balances.contains_key(other)
                == s.balances.contains_key(other) && s.register(discord_id, id).0.balances[other]
                == s.balances[other],
        forall|other: u64|
            other != discord_id ==> s.register(discord_id, id).0.persons.contains_key(other)
                == s.persons.contains_key(other) && s.register(discord_id, id).0.persons[other]
                == s.persons[other],
        s.register(discord_id, id).0.log == s.log,
{
}

/// When a registration succeeds: the key names no account yet and the
/// platform identifier is not yet bound, then and only then.
pub proof fn lemma_registration_succeeds_when(s: LedgerState, discord_id: u64, id: Key)
    ensures
        s.register(discord_id, id).1 is Ok <==> !s.balances.contains_key(id.bits)
            && !s.persons.contains_key(discord_id),
        s.register(discord_id, id).1 is Err ==> s.register(discord_id, id).0 == s,
        s.persons.contains_key(discord_id) && !s.balances.contains_key(id.bits) ==> s.register(
            discord_id,
            id,
        ).1 == Err::<(), Error>(Error::AlreadyExists(PERSON)),
{
}

/// A platform identifier is registered once. Once it is bound, every
/// further registration of it fails and changes nothing, and fails by
/// saying that the person exists wherever the key offered is a new one.
pub proof fn lemma_registered_once(s: LedgerState, discord_id: u64, first: Key, second: Key)
    requires
        s.register(discord_id, first).1 is Ok,
    ensures
        s.register(discord_id, first).0.register(discord_id, second).1 is Err,
        s.register(discord_id, first).0.register(discord_id, second).0 == s.register(
            discord_id,
            first,
        ).0,
        !s.register(discord_id, first).0.balances.contains_key(second.bits) ==> s.register(
            discord_id,
            first,
        ).0.register(discord_id, second).1 == Err::<(), Error>(
            Error::AlreadyExists(PERSON),
        ),
{
}

/// No account is overdrawn by a payment: whoever holds less than the
/// amount pays nothing, forced or not, and the store stays as it is.
pub proof fn lemma_overdraft_refused(
    s: LedgerState,
    to: Key,
    from: Key,
    amount: i64,
    force: Option<bool>,
    id: Key,
)
    requires
        amount_error(amount, force) is None,
        s.balances.contains_key(from.bits),
        s.balances[from.bits] < amount,
    ensures
        s.pay(to, from, amount, force, id) == (s, Err::<(), Error>(Error::InsufficientFunds)),
{
}

/// Whether no account owes anything.
pub open spec fn all_solvent(s: LedgerState) -> bool {
    forall|account: u128| #[trigger] s.balances.contains_key(account) ==> s.balances[account] >= 0
}

/// A payment that is not forced overdraws nobody: where no account owes
/// anything before it, none does after it.
pub proof fn lemma_unforced_payment_keeps_solvent(
    s: LedgerState,
    to: Key,
    from: Key,
    amount: i64,
    force: Option<bool>,
    id: Key,
)
    requires
        !is_forced(force),
        all_solvent(s),
    ensures
        all_solvent(s.pay(to, from, amount, force, id).0),
{
    let after = s.pay(to, from, amount, force, id).0;
    assert forall|account: u128| #[trigger] after.balances.contains_key(account) implies after.balances[account]
        >= 0 by {
        if after != s {
            assert(s.balances.contains_key(account));
            assert(s.balances.contains_key(from.bits));
            assert(s.balances.contains_key(to.bits));
        }
    }
}

/// A payment that does not succeed changes nothing.
pub proof fn lemma_failed_payment_changes_nothing(
    s: LedgerState,
    to: Key,
    from: Key,
    amount: i64,
    force: Option<bool>,
    id: Key,
)
    requires
        s.pay(to, from, amount, force, id).1 is Err,
    ensures
        s.pay(to, from, amount, force, id).0 == s,
{
}

/// When a payment succeeds. The rule on amounts is kept, both accounts
/// exist, the payer holds the amount, both new balances are in range and
/// the record's key is new: then and only then.
pub proof fn lemma_payment_succeeds_when(
    s: LedgerState,
    to: Key,
    from: Key,
    amount: i64,
    force: Option<bool>,
    id: Key,
)
    ensures
        s.pay(to, from, amount, force, id).1 is Ok <==> {
            &&& amount_error(amount, force) is None
            &&& s.balances.contains_key(from.bits)
            &&& s.balances.contains_key(to.bits)
            &&& s.balances[from.bits] >= amount
            &&& in_range(s.balances[from.bits] - amount)
            &&& (from != to ==> in_range(s.balances[to.bits] + amount))
            &&& !s.has_record(id)
        },
{
}

/// What a payment that succeeds has done. Between two accounts the payer
/// holds the amount less and the payee the amount more; from an account
/// to itself the balance is as before. No other balance has changed, no
/// person has, and the log is the old one with one record more, which
/// names the payer, the payee and the amount.
pub proof fn lemma_payment_moves(
    s: LedgerState,
    to: Key,
    from: Key,
    amount: i64,
    force: Option<bool>,
    id: Key,
)
    requires
        s.pay(to, from, amount, force, id).1 is Ok,
    ensures
        ({
            let after = s.pay(to, from, amount, force, id).0;
            &&& after.balances.dom() == s.balances.dom()
            &&& from != to ==> after.balances[from.bits] == s.balances[from.bits] - amount
            &&& from != to ==> after.balances[to.bits] == s.balances[to.bits] + amount
            &&& from == to ==> after.balances[from.bits] == s.balances[from.bits]
            &&& forall|other: u128|
                other != from.bits && other != to.bits ==> after.balances[other]
                    == s.balances[other]
            &&& after.persons == s.persons
            &&& after.log == s.log.push(TransferRecord { id, from, to, amount })
        }),
{
    let after = s.pay(to, from, amount, force, id).0;
    assert(after.balances.dom() =~= s.balances.dom());
}

/// Money is neither made nor lost by a payment: what the two accounts
/// hold together is the same before and after.
pub proof fn lemma_payment_conserves(
    s: LedgerState,
    to: Key,
    from: Key,
    amount: i64,
    force: Option<bool>,
    id: Key,
)
    requires
        from != to,
        s.balances.contains_key(from.bits),
        s.balances.contains_key(to.bits),
    ensures
        ({
            let after = s.pay(to, from, amount, force, id).0;
            after.balances[from.bits] + after.balances[to.bits] == s.balances[from.bits]
                + s.balances[to.bits]
        }),
{
}

/// The rule on amounts. A payment of nothing or of less than nothing that
/// is not forced is refused, each in its own words, and changes nothing.
pub proof fn lemma_unforced_amount_must_be_positive(
    s: LedgerState,
    to: Key,
    from: Key,
    amount: i64,
    force: Option<bool>,
    id: Key,
)
    requires
        !is_forced(force),
        amount <= 0,
    ensures
        s.pay(to, from, amount, force, id).0 == s,
        amount == 0 ==> s.pay(to, from, amount, force, id).1 == Err::<(), Error>(
            Error::Forbidden(ZERO_MONEY),
        ),
        amount < 0 ==> s.pay(to, from, amount, force, id).1 == Err::<(), Error>(
            Error::Forbidden(NEGATIVE_MONEY),
        ),
{
}

/// A forced payment of nothing succeeds wherever both accounts exist, the
/// payer owes nothing and the record's key is new. It leaves every balance
/// as it is and writes its record all the same.
pub proof fn lemma_forced_zero_is_recorded(s: LedgerState, to: Key, from: Key, id: Key)
    requires
        s.balances.contains_key(from.bits),
        s.balances.contains_key(to.bits),
        s.balances[from.bits] >= 0,
        !s.has_record(id),
    ensures
        s.pay(to, from, 0, Some(true), id).1 is Ok,
        s.pay(to, from, 0, Some(true), id).0.balances == s.balances,
        s.pay(to, from, 0, Some(true), id).0.log == s.log.push(
            TransferRecord { id, from, to, amount: 0 },
        ),
{
    let after = s.pay(to, from, 0, Some(true), id).0;
    assert(after.balances =~= s.balances);
}

/// Forcing a payment lifts the rule on amounts and nothing else: a forced
/// payment of less than nothing moves the amount the other way, but only
/// where the account named as payer holds at least that amount, which any
/// account that owes nothing does.
pub proof fn lemma_forced_negative_reverses(
    s: LedgerState,
    to: Key,
    from: Key,
    amount: i64,
    id: Key,
)
    requires
        amount < 0,
        from != to,
        s.pay(to, from, amount, Some(true), id).1 is Ok,
    ensures
        s.pay(to, from, amount, Some(true), id).0.balances[from.bits] == s.balances[from.bits]
            + (-amount),
        s.pay(to, from, amount, Some(true), id).0.balances[to.bits] == s.balances[to.bits] - (
        -amount),
{
}

/// The log is only ever added to: whatever a payment, a registration or
/// the printing of money does, every record that was there is still
/// there, in its place and as it was.
pub proof fn lemma_log_is_kept(
    s: LedgerState,
    to: Key,
    from: Key,
    amount: i64,
    force: Option<bool>,
    id: Key,
    discord_id: u64,
)
    ensures
        s.log.is_prefix_of(s.pay(to, from, amount, force, id).0.log),
        s.register(discord_id, id).0.log == s.log,
        s.mint(id, amount).0.log == s.log,
{
}

/// Printing money adds the amount, of either sign, to the account that
/// exists and can hold the sum, and changes nothing else.
pub proof fn lemma_mint_adds(s: LedgerState, id: Key, amount: i64)
    requires
        s.balances.contains_key(id.bits),
        in_range(s.balances[id.bits] + amount),
    ensures
        s.mint(id, amount).1 is Ok,
        s.mint(id, amount).0.balances == s.balances.insert(
            id.bits,
            (s.balances[id.bits] + amount) as i64,
        ),
        s.mint(id, amount).0.persons == s.persons,
        s.mint(id, amount).0.log == s.log,
{
}

/// One payment of a run: who is paid, and the key of its record.
pub struct Claim {
    pub to: Key,
    pub id: Key,
}

/// The store after a run of payments, each of `amount` from the account
/// `from` and none forced, made one after the other in the order given.
pub open spec fn after_run(s: LedgerState, from: Key, amount: i64, claims: Seq<Claim>) -> LedgerState
    decreases claims.len(),
{
    if claims.len() == 0 {
        s
    } else {
        after_run(s, from, amount, claims.drop_last()).pay(
            claims.last().to,
            from,
            amount,
            None,
            claims.last().id,
        ).0
    }
}

/// How the last payment of a run ends.
pub open spec fn last_of_run(s: LedgerState, from: Key, amount: i64, claims: Seq<Claim>) -> Result<
    (),
    Error,
>
    recommends
        claims.len() > 0,
{
    after_run(s, from, amount, claims.drop_last()).pay(
        claims.last().to,
        from,
        amount,
        None,
        claims.last().id,
    ).1
}

/// How many payments of a run succeed.
pub open spec fn paid_in_run(s: LedgerState, from: Key, amount: i64, claims: Seq<Claim>) -> nat
    decreases claims.len(),
{
    if claims.len() == 0 {
        0
    } else {
        paid_in_run(s, from, amount, claims.drop_last()) + if last_of_run(s, from, amount, claims)
            is Ok {
            1nat
        } else {
            0nat
        }
    }
}

/// What a run of payments needs so that nothing but the payer's balance
/// can stop one of them: each payee exists, is not the payer and can hold
/// what the payer has; each record's key is new and used once.
pub open spec fn run_is_clear(s: LedgerState, from: Key, claims: Seq<Claim>) -> bool {
    &&& s.balances.contains_key(from.bits)
    &&& forall|i: int|
        0 <= i < claims.len() ==> s.balances.contains_key((#[trigger] claims[i]).to.bits)
            && claims[i].to != from && s.balances[claims[i].to.bits] + s.balances[from.bits]
            <= i64::MAX
    &&& forall|i: int| 0 <= i < claims.len() ==> !s.has_record((#[trigger] claims[i]).id)
    &&& forall|i: int, j: int|
        0 <= i < j < claims.len() ==> (#[trigger] claims[i]).id != (#[trigger] claims[j]).id
}

/// The smaller of two numbers.
pub open spec fn smaller(a: int, b: int) -> int {
    if a <= b {
        a
    } else {
        b
    }
}

/// What a run of payments from one account comes to. The account holds
/// `k` times the amount. Then as many payments succeed as it can pay for,
/// `k` or all of them, in whatever order the run has them; every one after
/// those fails for lack of funds; and the account is left with what the
/// payments that succeeded did not take, never with less than nothing.
pub proof fn lemma_run_pays_what_is_there(
    s: LedgerState,
    from: Key,
    amount: i64,
    k: nat,
    claims: Seq<Claim>,
)
    requires
        amount > 0,
        run_is_clear(s, from, claims),
        s.balances[from.bits] == amount * k,
    ensures
        paid_in_run(s, from, amount, claims) == smaller(claims.len() as int, k as int),
        after_run(s, from, amount, claims).balances[from.bits] == amount * (k - paid_in_run(
            s,
            from,
            amount,
            claims,
        )),
        after_run(s, from, amount, claims).balances[from.bits] >= 0,
        claims.len() > k ==> last_of_run(s, from, amount, claims) == Err::<(), Error>(
            Error::InsufficientFunds,
        ),
        0 < claims.len() <= k ==> last_of_run(s, from, amount, claims) is Ok,
        after_run(s, from, amount, claims).balances.dom() == s.balances.dom(),
        forall|x: u128|
            s.balances.contains_key(x) && x != from.bits ==> after_run(
                s,
                from,
                amount,
                claims,
            ).balances[x] + after_run(s, from, amount, claims).balances[from.bits]
                <= s.balances[x] + s.balances[from.bits],
        forall|id: Key| #[trigger]
            after_run(s, from, amount, claims).has_record(id) ==> s.has_record(id) || exists|
                i: int,
            |
                0 <= i < claims.len() && (#[trigger] claims[i]).id == id,
    decreases claims.len(),
{
    if claims.len() == 0 {
        assert(amount * k >= 0) by (nonlinear_arith)
            requires
                amount > 0,
                k >= 0,
        ;
    } else {
        let earlier = claims.drop_last();
        let last = claims.last();
        assert(run_is_clear(s, from, earlier)) by {
            assert forall|i: int| 0 <= i < earlier.len() implies s.balances.contains_key(
                (#[trigger] earlier[i]).to.bits,
            ) && earlier[i].to != from && s.balances[earlier[i].to.bits] + s.balances[from.bits]
                <= i64::MAX by {
                assert(earlier[i] == claims[i]);
            }
            assert forall|i: int| 0 <= i < earlier.len() implies !s.has_record(
                (#[trigger] earlier[i]).id,
            ) by {
                assert(earlier[i] == claims[i]);
            }
            assert forall|i: int, j: int| 0 <= i < j < earlier.len() implies (
            #[trigger] earlier[i]).id != (#[trigger] earlier[j]).id by {
                assert(earlier[i] == claims[i]);
                assert(earlier[j] == claims[j]);
            }
        }
        lemma_run_pays_what_is_there(s, from, amount, k, earlier);
        let t = after_run(s, from, amount, earlier);
        let c = paid_in_run(s, from, amount, earlier);
        let u = after_run(s, from, amount, claims);
        assert(last == claims[claims.len() - 1]);
        assert(t.balances.contains_key(last.to.bits));
        assert(t.balances.contains_key(from.bits));
        assert(!t.has_record(last.id)) by {
            if t.has_record(last.id) {
                let i = choose|i: int| 0 <= i < earlier.len() && (#[trigger] earlier[i]).id
                    == last.id;
                assert(earlier[i] == claims[i]);
            }
        }
        if c < k {
            assert(amount * (k - c) >= amount && amount * (k - c) - amount == amount * (k - (c
                + 1))) by (nonlinear_arith)
                requires
                    amount > 0,
                    k - c >= 1,
            ;
            assert(t.balances[last.to.bits] + t.balances[from.bits] <= i64::MAX);
            assert(last_of_run(s, from, amount, claims) is Ok);
            assert(u.balances.dom() =~= s.balances.dom());
            assert(amount * (k - (c + 1)) >= 0) by (nonlinear_arith)
                requires
                    amount > 0,
                    k - (c + 1) >= 0,
            ;
            assert forall|id: Key| #[trigger] u.has_record(id) implies s.has_record(id) || exists|
                i: int,
            |
                0 <= i < claims.len() && (#[trigger] claims[i]).id == id by {
                let j = choose|j: int| 0 <= j < u.log.len() && (#[trigger] u.log[j]).id == id;
                if j < t.log.len() {
                    assert(u.log[j] == t.log[j]);
                    assert(t.has_record(id));
                    if !s.has_record(id) {
                        let i = choose|i: int| 0 <= i < earlier.len() && (#[trigger] earlier[i]).id
                            == id;
                        assert(earlier[i] == claims[i]);
                    }
                } else {
                    assert(claims[claims.len() - 1].id == id);
                }
            }
        } else {
            assert(amount * (k - c) == 0) by (nonlinear_arith)
                requires
                    k - c == 0,
            ;
            assert(last_of_run(s, from, amount, claims) == Err::<(), Error>(
                Error::InsufficientFunds,
            ));
            assert(u == t);
            assert forall|id: Key| #[trigger] u.has_record(id) implies s.has_record(id) || exists|
                i: int,
            |
                0 <= i < claims.len() && (#[trigger] claims[i]).id == id by {
                if !s.has_record(id) {
                    let i = choose|i: int| 0 <= i < earlier.len() && (#[trigger] earlier[i]).id
                        == id;
                    assert(earlier[i] == claims[i]);
                }
            }
        }
    }
}

/// Of as many payments as an account can pay for and one more, all but
/// one succeed and that one fails for lack of funds, with nothing left on
/// the account and nothing owed: whatever order they come in, the account
/// is not overdrawn, and not all of them go through.
pub proof fn lemma_one_too_many(s: LedgerState, from: Key, amount: i64, claims: Seq<Claim>)
    requires
        amount > 0,
        claims.len() > 0,
        run_is_clear(s, from, claims),
        s.balances[from.bits] == amount * (claims.len() - 1),
    ensures
        paid_in_run(s, from, amount, claims) == claims.len() - 1,
        last_of_run(s, from, amount, claims) == Err::<(), Error>(Error::InsufficientFunds),
        after_run(s, from, amount, claims).balances[from.bits] == 0,
{
    let k = (claims.len() - 1) as nat;
    lemma_run_pays_what_is_there(s, from, amount, k, claims);
    assert(amount * (k - k) == 0) by (nonlinear_arith);
}

} // verus!
