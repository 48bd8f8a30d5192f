//! Requests about time-based one-time codes (TOTP).
use super::commit::commit;
use super::flow::{fail, reply, Flow, Step, TotpFlow, Upkeep};
use super::replies;
use crate::crypto::ct_eq;
use crate::error::{AppError, Refusal};
use crate::exchange::{Action, Event, Reply};
use crate::models::twofactor::{TwoFactor, TwoFactorType};
use crate::store::{Query, Write};
use crate::{handlers, outside, store};
use vstd::prelude::*;

verus! {

broadcast use vstd::string::group_string_axioms;

/// How many bytes a key has.
pub const KEY_LEN: usize = 20;

/// Asks for the record to show.
pub fn show(user_id: String) -> (out: Step)
    ensures
        out == Step::Ask(
            Flow::Totp(TotpFlow::Showing),
            Action::Query(
                Query::TwoFactorOfType { user_id, atype: TwoFactorType::Authenticator.code() },
            ),
        ),
{
    Step::Ask(
        Flow::Totp(TotpFlow::Showing),
        Action::Query(
            Query::TwoFactorOfType { user_id, atype: TwoFactorType::Authenticator.to_i32() },
        ),
    )
}

/// Whether this is how the activation of a key starts: the key, in upper case, is decoded.
pub open spec fn activates(user_id: String, key: String, token: String, out: Step) -> bool {
    &&& out matches Step::Ask(
        Flow::Totp(TotpFlow::Decoding { user_id: u, key: k, token: t }),
        Action::DecodeBase32 { text },
    )
    &&& u == user_id
    &&& t == token
    &&& k@ == outside::uppercase_of(key@)
    &&& text == k
}

/// Starts the activation of a key.
pub fn activate(user_id: String, key: String, token: String) -> (out: Step)
    ensures
        activates(user_id, key, token, out),
{
    let key = key.as_str().to_uppercase();
    let text = key.clone();
    Step::Ask(
        Flow::Totp(TotpFlow::Decoding { user_id, key, token }),
        Action::DecodeBase32 { text },
    )
}

/// Asks for the record to be dropped.
pub fn disable(user_id: String, key: String, type_: i32) -> (out: Step)
    ensures
        out == Step::Ask(
            Flow::Totp(TotpFlow::Disabling { user_id, key, type_ }),
            Action::Query(Query::TwoFactorOfType { user_id, atype: type_ }),
        ),
{
    let query = Query::TwoFactorOfType { user_id: user_id.clone(), atype: type_ };
    Step::Ask(Flow::Totp(TotpFlow::Disabling { user_id, key, type_ }), Action::Query(query))
}

/// The time step that was last used with a record, 0 where there is no record.
pub open spec fn last_used_of(existing: Option<TwoFactor>) -> i64 {
    match existing {
        Some(tf) => tf.last_used,
        None => 0,
    }
}

/// Whether changes are those that activate a key: the record of an earlier key goes, and so do the
/// devices that were remembered under it; the new record remembers the time step of the code.
pub open spec fn activation(writes: Seq<Write>, user_id: String, key: String, step: i64) -> bool {
    &&& writes.len() == 2
    &&& writes[0] == (Write::DeleteTypes {
        user_id,
        first: TwoFactorType::Authenticator.code(),
        second: TwoFactorType::Remember.code(),
    })
    &&& writes[1] matches Write::Insert { row } && row.last_used == step && (TwoFactor {
        last_used: 0,
        ..row
    }).is_new(user_id@, TwoFactorType::Authenticator.code(), key@)
}

/// The changes that put a record in the place of a user's key and of the devices remembered under
/// it, with the time step of the code.
pub open spec fn replacing(user_id: String, row: TwoFactor, step: i64) -> Seq<Write> {
    seq![
        Write::DeleteTypes {
            user_id,
            first: TwoFactorType::Authenticator.code(),
            second: TwoFactorType::Remember.code(),
        },
    ].push(Write::Insert { row: TwoFactor { last_used: step, ..row } })
}

/// The changes that activate a key, for which this record was made.
pub fn activation_writes(user_id: String, row: TwoFactor, step: i64) -> (r: Vec<Write>)
    ensures
        r@ == replacing(user_id, row, step),
{
    let mut writes: Vec<Write> = Vec::new();
    writes.push(
        Write::DeleteTypes {
            user_id,
            first: TwoFactorType::Authenticator.to_i32(),
            second: TwoFactorType::Remember.to_i32(),
        },
    );
    let mut kept = row;
    kept.last_used = step;
    writes.push(Write::Insert { row: kept });
    assert(writes@ =~= replacing(user_id, row, step));
    writes
}

/// Whether this is how a key is activated with the record that was made for it, where one was.
pub open spec fn puts_key(
    made: Result<TwoFactor, AppError>,
    user_id: String,
    key: Seq<char>,
    step: i64,
    out: Step,
) -> bool {
    match made {
        Err(e) => handlers::flow::fails(out, e),
        Ok(row) => exists|end: Result<Reply, AppError>|
            handlers::flow::will_reply(end, replies::authenticator_view(true, key))
                && #[trigger] handlers::commit::commits(
                replacing(user_id, row, step),
                Upkeep::IssueRecovery { user_id },
                end,
                out,
            ),
    }
}

/// Activates a key with the record that was made for it.
pub fn put_key(made: Result<TwoFactor, AppError>, user_id: String, key: &str, step: i64) -> (out:
    Step)
    ensures
        puts_key(made, user_id, key@, step, out),
{
    let row = match made {
        Err(e) => return fail(e),
        Ok(row) => row,
    };
    let end: Result<Reply, AppError> = Ok(Reply::Json(replies::authenticator(true, key)));
    let ghost ending = end;
    let writes = activation_writes(user_id.clone(), row, step);
    let out = commit(writes, Upkeep::IssueRecovery { user_id }, end);
    assert(handlers::commit::commits(
        replacing(user_id, row, step),
        Upkeep::IssueRecovery { user_id },
        ending,
        out,
    ));
    out
}

/// Whether this is what follows the time step of a code.
pub open spec fn activated(user_id: String, key: String, step: i64, out: Step) -> bool {
    exists|made: Result<TwoFactor, AppError>|
        TwoFactor::is_made(made, user_id@, TwoFactorType::Authenticator, key@)
            && #[trigger] puts_key(made, user_id, key@, step, out)
}

/// What was done where a key was activated.
pub proof fn lemma_activated(user_id: String, key: String, step: i64, out: Step) -> (r: (
    Seq<Write>,
    Result<Reply, AppError>,
))
    requires
        activated(user_id, key, step, out),
        out != Step::Done(Err(AppError::Internal)),
    ensures
        activation(r.0, user_id, key, step),
        handlers::flow::will_reply(r.1, replies::authenticator_view(true, key@)),
        handlers::commit::commits(r.0, Upkeep::IssueRecovery { user_id }, r.1, out),
{
    let made = choose|made: Result<TwoFactor, AppError>|
        TwoFactor::is_made(made, user_id@, TwoFactorType::Authenticator, key@)
            && #[trigger] puts_key(made, user_id, key@, step, out);
    let row = made->Ok_0;
    let end = choose|end: Result<Reply, AppError>|
        handlers::flow::will_reply(end, replies::authenticator_view(true, key@))
            && #[trigger] handlers::commit::commits(
            replacing(user_id, row, step),
            Upkeep::IssueRecovery { user_id },
            end,
            out,
        );
    assert(TwoFactor { last_used: 0, ..TwoFactor { last_used: step, ..row } } == row);
    (replacing(user_id, row, step), end)
}

/// Whether this is what follows the record to be dropped, for a client that names the key
/// `upper_key`, in upper case.
pub open spec fn disables(
    existing: Option<TwoFactor>,
    user_id: String,
    upper_key: Seq<char>,
    type_: i32,
    out: Step,
) -> bool {
    match existing {
        None => handlers::flow::fails(out, AppError::BadRequest(Refusal::TotpNotConfigured)),
        Some(tf) => if tf.data@ != upper_key {
            handlers::flow::fails(out, AppError::BadRequest(Refusal::TotpKeyMismatch))
        } else {
            exists|end: Result<Reply, AppError>|
                handlers::flow::will_reply(end, replies::disabled_view(type_))
                    && #[trigger] handlers::commit::commits(
                    seq![Write::DeleteRow { uuid: tf.uuid }],
                    Upkeep::ClearRecovery { user_id },
                    end,
                    out,
                )
        },
    }
}

/// Drops the record, where it holds the key that the client named, in upper case.
pub fn drop_record(
    existing: Option<TwoFactor>,
    user_id: String,
    upper_key: &str,
    type_: i32,
) -> (out: Step)
    ensures
        disables(existing, user_id, upper_key@, type_, out),
{
    let tf = match existing {
        None => return fail(AppError::BadRequest(Refusal::TotpNotConfigured)),
        Some(tf) => tf,
    };
    if !ct_eq(tf.data.as_str(), upper_key) {
        return fail(AppError::BadRequest(Refusal::TotpKeyMismatch));
    }
    let ghost uuid = tf.uuid;
    let mut writes: Vec<Write> = Vec::new();
    writes.push(Write::DeleteRow { uuid: tf.uuid });
    assert(writes@ =~= seq![Write::DeleteRow { uuid }]);
    let end: Result<Reply, AppError> = Ok(Reply::Json(replies::disabled(type_)));
    let ghost ending = end;
    let out = commit(writes, Upkeep::ClearRecovery { user_id }, end);
    assert(handlers::commit::commits(
        seq![Write::DeleteRow { uuid }],
        Upkeep::ClearRecovery { user_id },
        ending,
        out,
    ));
    out
}

/// Whether this is what follows an answer in a request about time-based codes.
pub open spec fn totp_next(state: TotpFlow, event: Event, out: Step) -> bool {
    match (state, event) {
        (TotpFlow::Showing, Event::Row(Some(tf))) => handlers::flow::replies(
            out,
            replies::authenticator_view(true, tf.data@),
        ),
        (TotpFlow::Showing, Event::Row(None)) => out == Step::Ask(
            Flow::Totp(TotpFlow::Making),
            Action::NewTotpSecret,
        ),
        (TotpFlow::Making, Event::Text(key)) => handlers::flow::replies(
            out,
            replies::authenticator_view(false, key@),
        ),
        (TotpFlow::Decoding { user_id, key, token }, Event::Bytes(bytes)) => if bytes@.len()
            != KEY_LEN {
            handlers::flow::fails(out, AppError::BadRequest(Refusal::KeyLength))
        } else {
            out == Step::Ask(
                Flow::Totp(TotpFlow::Finding { user_id, key, token }),
                Action::Query(
                    Query::TwoFactorOfType { user_id, atype: TwoFactorType::Authenticator.code() },
                ),
            )
        },
        (TotpFlow::Finding { user_id, key, token }, Event::Row(existing)) => out == Step::Ask(
            Flow::Totp(TotpFlow::Validating { user_id, key }),
            Action::ValidateTotp { token, key, last_used: last_used_of(existing) },
        ),
        (TotpFlow::Validating { user_id, key }, Event::Step(step)) => activated(
            user_id,
            key,
            step,
            out,
        ),
        (TotpFlow::Disabling { user_id, key, type_ }, Event::Row(existing)) => disables(
            existing,
            user_id,
            outside::uppercase_of(key@),
            type_,
            out,
        ),
        _ => handlers::flow::fails(out, AppError::Internal),
    }
}

/// What follows an answer in a request about time-based codes.
pub fn totp_step(state: TotpFlow, event: Event) -> (out: Step)
    ensures
        totp_next(state, event, out),
{
    match (state, event) {
        (TotpFlow::Showing, Event::Row(Some(tf))) => reply(
            replies::authenticator(true, tf.data.as_str()),
        ),
        (TotpFlow::Showing, Event::Row(None)) => Step::Ask(
            Flow::Totp(TotpFlow::Making),
            Action::NewTotpSecret,
        ),
        (TotpFlow::Making, Event::Text(key)) => reply(
            replies::authenticator(false, key.as_str()),
        ),
        (TotpFlow::Decoding { user_id, key, token }, Event::Bytes(bytes)) => {
            if bytes.len() != KEY_LEN {
                return fail(AppError::BadRequest(Refusal::KeyLength));
            }
            let query = Query::TwoFactorOfType {
                user_id: user_id.clone(),
                atype: TwoFactorType::Authenticator.to_i32(),
            };
            Step::Ask(Flow::Totp(TotpFlow::Finding { user_id, key, token }), Action::Query(query))
        },
        (TotpFlow::Finding { user_id, key, token }, Event::Row(existing)) => {
            let last_used: i64 = match existing {
                Some(tf) => tf.last_used,
                None => 0,
            };
            let action = Action::ValidateTotp { token, key: key.clone(), last_used };
            Step::Ask(Flow::Totp(TotpFlow::Validating { user_id, key }), action)
        },
        (TotpFlow::Validating { user_id, key }, Event::Step(step)) => {
            let shown = key.clone();
            let made = TwoFactor::new(user_id.clone(), TwoFactorType::Authenticator, key);
            let ghost row = made;
            let out = put_key(made, user_id, shown.as_str(), step);
            assert(puts_key(row, user_id, key@, step, out));
            out
        },
        (TotpFlow::Disabling { user_id, key, type_ }, Event::Row(existing)) => drop_record(
            existing,
            user_id,
            key.as_str().to_uppercase().as_str(),
            type_,
        ),
        _ => fail(AppError::Internal),
    }
}

/// After the changes that activate a key, its record is the only one of its type that the user has,
/// it remembers the time step that was used, and no remembered device is left. The records of other
/// users and of other types are as they were.
pub proof fn law_activated_key_is_the_only_one(
    writes: Seq<Write>,
    user_id: String,
    key: String,
    step: i64,
    rows: Seq<TwoFactor>,
    user: Seq<char>,
    t: i32,
)
    requires
        activation(writes, user_id, key, step),
    ensures
        ({
            let after = store::after_all(writes, rows);
            let own = store::of_type(after, user_id@, TwoFactorType::Authenticator.code());
            &&& own.len() == 1
            &&& own[0].data@ == key@
            &&& own[0].enabled
            &&& own[0].last_used == step
            &&& store::of_type(after, user_id@, TwoFactorType::Remember.code()).len() == 0
            &&& user != user_id@ || (t != TwoFactorType::Authenticator.code() && t
                != TwoFactorType::Remember.code()) ==> store::of_type(after, user, t)
                == store::of_type(rows, user, t)
        }),
{
    let row = writes[1]->row;
    let first = writes[0];
    let other = TwoFactorType::Remember.code();
    let named = Write::DeleteTypes { user_id: row.user_uuid, first: row.atype, second: other };
    assert(writes =~= seq![first].push(Write::Insert { row }));
    store::lemma_two_changes(first, Write::Insert { row }, rows);
    store::lemma_two_changes(named, Write::Insert { row }, rows);
    store::lemma_same_deletion(first, named, rows);
    store::law_replacing_two_types_leaves_one_record(row, other, rows, user, t);
}

/// Activation has a code checked against the time step that was last used, and its record, where
/// one can be made, keeps the step of the code that was accepted.
pub proof fn law_activation_guards_against_replay(
    user_id: String,
    key: String,
    token: String,
    existing: Option<TwoFactor>,
    asked: Step,
    step: i64,
    out: Step,
)
    requires
        totp_next(TotpFlow::Finding { user_id, key, token }, Event::Row(existing), asked),
        totp_next(TotpFlow::Validating { user_id, key }, Event::Step(step), out),
    ensures
        asked matches Step::Ask(_, Action::ValidateTotp { last_used, .. }) && last_used
            == last_used_of(existing),
        out != Step::Done(Err(AppError::Internal)) ==> (out matches Step::Ask(
            Flow::Commit(handlers::flow::Commit::Writing { writes, .. }),
            Action::Write(first),
        ) && activation(seq![first] + writes@, user_id, key, step)),
{
    if out != Step::Done(Err(AppError::Internal)) {
        let (writes, end) = lemma_activated(user_id, key, step, out);
        let rest = out->Ask_0->Commit_0->Writing_writes@;
        assert(seq![writes.first()] + rest =~= writes);
    }
}

/// A record that an activation made is dropped for whoever names the key that was activated, in
/// whatever case they write it.
pub proof fn law_activated_key_drops_its_record(
    writes: Seq<Write>,
    user_id: String,
    stored: String,
    step: i64,
    key: Seq<char>,
    named: Seq<char>,
    type_: i32,
    out: Step,
)
    requires
        activation(writes, user_id, stored, step),
        stored@ == outside::uppercase_of(key),
        outside::uppercase_of(named) == outside::uppercase_of(key),
        disables(
            Some(writes[1]->row),
            user_id,
            outside::uppercase_of(named),
            type_,
            out,
        ),
    ensures
        out matches Step::Ask(_, Action::Write(Write::DeleteRow { uuid })) && uuid
            == (writes[1]->row).uuid,
{
    let row = writes[1]->row;
    let end = choose|end: Result<Reply, AppError>|
        handlers::flow::will_reply(end, replies::disabled_view(type_))
            && #[trigger] handlers::commit::commits(
            seq![Write::DeleteRow { uuid: row.uuid }],
            Upkeep::ClearRecovery { user_id },
            end,
            out,
        );
    assert(handlers::commit::commits(
        seq![Write::DeleteRow { uuid: row.uuid }],
        Upkeep::ClearRecovery { user_id },
        end,
        out,
    ));
}

} // verus!
