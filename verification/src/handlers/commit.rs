//! The changes that a request makes, and what is seen to after them.
//!
//! Every request that changes records ends here: it hands over its changes, which are made one
//! after the other, and what it will answer once they are made.
use super::flow::{fail, Commit, Flow, Step, Upkeep};
use crate::error::{AppError, Refusal};
use crate::exchange::{Action, Event, Payload, Reply};
use crate::models::twofactor::{TwoFactor, TwoFactorType};
use crate::store::{Query, Write};
use crate::{handlers, store};
use vstd::prelude::*;

verus! {

broadcast use vstd::string::group_string_axioms;

/// Whether this is how a request that has made its changes goes on.
pub open spec fn keeps_up(upkeep: Upkeep, end: Result<Reply, AppError>, out: Step) -> bool {
    match upkeep {
        Upkeep::Nothing => out == Step::Done(end),
        Upkeep::IssueRecovery { user_id } => out == Step::Ask(
            Flow::Commit(Commit::ReadingRecovery { user_id, end }),
            Action::Query(Query::RecoveryCode { user_id }),
        ),
        Upkeep::ClearRecovery { user_id } => out == Step::Ask(
            Flow::Commit(Commit::CountingProviders { user_id, end }),
            Action::Query(Query::Providers { user_id }),
        ),
        Upkeep::Mail { to, token } => out == Step::Ask(
            Flow::Commit(Commit::Finishing { end }),
            Action::SendToken { to, token },
        ),
    }
}

/// Goes on once the changes are made.
fn keep_up(upkeep: Upkeep, end: Result<Reply, AppError>) -> (out: Step)
    ensures
        keeps_up(upkeep, end, out),
{
    match upkeep {
        Upkeep::Nothing => Step::Done(end),
        Upkeep::IssueRecovery { user_id } => {
            let query = Query::RecoveryCode { user_id: user_id.clone() };
            Step::Ask(
                Flow::Commit(Commit::ReadingRecovery { user_id, end }),
                Action::Query(query),
            )
        },
        Upkeep::ClearRecovery { user_id } => {
            let query = Query::Providers { user_id: user_id.clone() };
            Step::Ask(
                Flow::Commit(Commit::CountingProviders { user_id, end }),
                Action::Query(query),
            )
        },
        Upkeep::Mail { to, token } => Step::Ask(
            Flow::Commit(Commit::Finishing { end }),
            Action::SendToken { to, token },
        ),
    }
}

/// Whether this is how a request that is to make some changes goes on: with the first of them.
pub open spec fn commits(
    writes: Seq<Write>,
    upkeep: Upkeep,
    end: Result<Reply, AppError>,
    out: Step,
) -> bool {
    if writes.len() == 0 {
        keeps_up(upkeep, end, out)
    } else {
        &&& out matches Step::Ask(
            Flow::Commit(Commit::Writing { writes: rest, upkeep: u, end: e }),
            Action::Write(first),
        )
        &&& first == writes.first()
        &&& rest@ == writes.drop_first()
        &&& u == upkeep
        &&& e == end
    }
}

/// Makes changes, sees to what comes after them, and ends the request.
pub fn commit(writes: Vec<Write>, upkeep: Upkeep, end: Result<Reply, AppError>) -> (out: Step)
    ensures
        commits(writes@, upkeep, end, out),
{
    if writes.len() == 0 {
        keep_up(upkeep, end)
    } else {
        let mut rest = writes;
        let first = rest.remove(0);
        assert(rest@ =~= writes@.drop_first());
        Step::Ask(Flow::Commit(Commit::Writing { writes: rest, upkeep, end }), Action::Write(first))
    }
}

/// The changes that put a record in the place of those of its type that its user has.
pub fn upsert_twofactor_row(row: TwoFactor) -> (r: Vec<Write>)
    ensures
        r@ == store::upsert(row),
{
    let mut writes: Vec<Write> = Vec::new();
    writes.push(Write::DeleteType { user_id: row.user_uuid.clone(), atype: row.atype });
    writes.push(Write::Insert { row });
    assert(writes@ =~= store::upsert(row));
    writes
}

/// Whether this is how a request stores a record that was made for it, where one was.
pub open spec fn stores_made(
    made: Result<TwoFactor, AppError>,
    upkeep: Upkeep,
    end: Result<Reply, AppError>,
    out: Step,
) -> bool {
    match made {
        Err(e) => handlers::flow::fails(out, e),
        Ok(row) => commits(store::upsert(row), upkeep, end, out),
    }
}

/// Stores a record that was made, in the place of those of its type.
pub fn store_made(made: Result<TwoFactor, AppError>, upkeep: Upkeep, end: Result<Reply, AppError>) -> (
out: Step)
    ensures
        stores_made(made, upkeep, end, out),
{
    match made {
        Err(e) => fail(e),
        Ok(row) => commit(upsert_twofactor_row(row), upkeep, end),
    }
}

/// Whether this is how a request stores a value: it is written as JSON, which `Commit::Saving`
/// waits for.
pub open spec fn saves(
    user_id: String,
    atype: TwoFactorType,
    payload: Payload,
    upkeep: Upkeep,
    end: Result<Reply, AppError>,
    out: Step,
) -> bool {
    out == Step::Ask(
        Flow::Commit(Commit::Saving { user_id, atype, upkeep, end }),
        Action::Encode(payload),
    )
}

/// Stores a value in a new record, in the place of those of its type.
pub fn save(
    user_id: String,
    atype: TwoFactorType,
    payload: Payload,
    upkeep: Upkeep,
    end: Result<Reply, AppError>,
) -> (out: Step)
    ensures
        saves(user_id, atype, payload, upkeep, end, out),
{
    Step::Ask(
        Flow::Commit(Commit::Saving { user_id, atype, upkeep, end }),
        Action::Encode(payload),
    )
}

/// Whether this is what follows an answer while changes are made.
pub open spec fn commit_next(state: Commit, event: Event, out: Step) -> bool {
    match (state, event) {
        (Commit::Saving { user_id, atype, upkeep, end }, Event::Text(data)) => exists|
            made: Result<TwoFactor, AppError>,
        |
            TwoFactor::is_made(made, user_id@, atype, data@) && #[trigger] stores_made(
                made,
                upkeep,
                end,
                out,
            ),
        (Commit::Writing { writes, upkeep, end }, Event::Done) => commits(
            writes@,
            upkeep,
            end,
            out,
        ),
        (Commit::ReadingRecovery { user_id, end }, Event::RecoveryCode(found)) => match found {
            None => handlers::flow::fails(out, AppError::Unauthorized(Refusal::UserNotFound)),
            Some(Some(_)) => out == Step::Done(end),
            Some(None) => out == Step::Ask(
                Flow::Commit(Commit::MakingRecovery { user_id, end }),
                Action::NewRecoveryCode,
            ),
        },
        (Commit::MakingRecovery { user_id, end }, Event::Text(code)) => out == Step::Ask(
            Flow::Commit(Commit::Finishing { end }),
            Action::Write(Write::SetRecovery { user_id, code }),
        ),
        (Commit::CountingProviders { user_id, end }, Event::Rows(left)) => if left@.len() == 0 {
            out == Step::Ask(
                Flow::Commit(Commit::Finishing { end }),
                Action::Write(Write::ClearRecovery { user_id }),
            )
        } else {
            out == Step::Done(end)
        },
        (Commit::Finishing { end }, Event::Done) => out == Step::Done(end),
        _ => handlers::flow::fails(out, AppError::Internal),
    }
}

/// What follows an answer while changes are made.
pub fn commit_step(state: Commit, event: Event) -> (out: Step)
    ensures
        commit_next(state, event, out),
{
    match (state, event) {
        (Commit::Saving { user_id, atype, upkeep, end }, Event::Text(data)) => {
            let made = TwoFactor::new(user_id, atype, data);
            let ghost row = made;
            let out = store_made(made, upkeep, end);
            assert(stores_made(row, upkeep, end, out));
            out
        },
        (Commit::Writing { writes, upkeep, end }, Event::Done) => commit(writes, upkeep, end),
        (Commit::ReadingRecovery { user_id, end }, Event::RecoveryCode(found)) => match found {
            None => fail(AppError::Unauthorized(Refusal::UserNotFound)),
            Some(Some(_)) => Step::Done(end),
            Some(None) => Step::Ask(
                Flow::Commit(Commit::MakingRecovery { user_id, end }),
                Action::NewRecoveryCode,
            ),
        },
        (Commit::MakingRecovery { user_id, end }, Event::Text(code)) => Step::Ask(
            Flow::Commit(Commit::Finishing { end }),
            Action::Write(Write::SetRecovery { user_id, code }),
        ),
        (Commit::CountingProviders { user_id, end }, Event::Rows(left)) => if left.len() == 0 {
            Step::Ask(
                Flow::Commit(Commit::Finishing { end }),
                Action::Write(Write::ClearRecovery { user_id }),
            )
        } else {
            Step::Done(end)
        },
        (Commit::Finishing { end }, Event::Done) => Step::Done(end),
        _ => fail(AppError::Internal),
    }
}

/// A request that stores a value makes a new record of it, and its changes leave that record as the
/// only one of its type that the user has; the records of other users and of other types stay.
pub proof fn law_saved_record_is_the_only_one(
    user_id: String,
    atype: TwoFactorType,
    upkeep: Upkeep,
    end: Result<Reply, AppError>,
    data: String,
    out: Step,
    rows: Seq<TwoFactor>,
    other_user: Seq<char>,
    other_type: i32,
) -> (row: TwoFactor)
    requires
        commit_next(Commit::Saving { user_id, atype, upkeep, end }, Event::Text(data), out),
        out is Ask,
    ensures
        row.is_new(user_id@, atype.code(), data@),
        commits(store::upsert(row), upkeep, end, out),
        store::of_type(store::after_all(store::upsert(row), rows), user_id@, atype.code()) == seq![
            row,
        ],
        other_user != user_id@ || other_type != atype.code() ==> store::of_type(
            store::after_all(store::upsert(row), rows),
            other_user,
            other_type,
        ) == store::of_type(rows, other_user, other_type),
{
    let made = choose|made: Result<TwoFactor, AppError>|
        TwoFactor::is_made(made, user_id@, atype, data@) && #[trigger] stores_made(
            made,
            upkeep,
            end,
            out,
        );
    let row = made->Ok_0;
    store::law_upsert_leaves_one_record(row, rows, other_user, other_type);
    row
}

} // verus!
