//! How a request goes on, from the password that opens it to its end.
use super::commit::{commit, commit_step};
use super::email::{self, email_step};
use super::flow::{
    fail, reply, Commit, Flow, Goal, RegistrationJob, Step, Upkeep, WebauthnFlow, WebauthnGoal,
};
use super::replies;
use super::totp::{self, totp_step};
use super::webauthn::{self, webauthn_step};
use super::yubikey::{self, yubikey_step};
use crate::error::{AppError, Refusal};
use crate::exchange::{Action, Event, Reply};
use crate::handlers;
use crate::models::twofactor::TwoFactorType;
use crate::models::user::{PasswordOrOtpData, User};
use crate::store::{Query, Write};
use crate::webauthn::RelyingParty;
use vstd::prelude::*;

verus! {

broadcast use vstd::string::group_string_axioms;

/// The first step of what a signed-in user asks for: their account is looked up.
pub open spec fn gates(
    user_id: String,
    credentials: PasswordOrOtpData,
    goal: Goal,
    out: Step,
) -> bool {
    out == Step::Ask(
        Flow::FindingUser { credentials, goal },
        Action::Query(Query::User { id: user_id }),
    )
}

/// Starts what a signed-in user asks for.
pub fn gate(user_id: String, credentials: PasswordOrOtpData, goal: Goal) -> (out: Step)
    ensures
        gates(user_id, credentials, goal, out),
{
    Step::Ask(
        Flow::FindingUser { credentials, goal },
        Action::Query(Query::User { id: user_id }),
    )
}

/// A query for the record of a user that has a type.
pub open spec fn asks_for(user_id: String, atype: TwoFactorType) -> Action {
    Action::Query(Query::TwoFactorOfType { user_id, atype: atype.code() })
}

/// Whether this is what follows the right password.
pub open spec fn pursues(goal: Goal, user: User, out: Step) -> bool {
    match goal {
        Goal::GetAuthenticator { user_id } => out == Step::Ask(
            Flow::Totp(handlers::flow::TotpFlow::Showing),
            asks_for(user_id, TwoFactorType::Authenticator),
        ),
        Goal::ActivateAuthenticator { user_id, key, token } => totp::activates(
            user_id,
            key,
            token,
            out,
        ),
        Goal::Disable { user_id, type_ } => exists|end: Result<Reply, AppError>|
            handlers::flow::will_reply(end, replies::disabled_view(type_))
                && #[trigger] handlers::commit::commits(
                seq![Write::DeleteType { user_id, atype: type_ }],
                Upkeep::ClearRecovery { user_id },
                end,
                out,
            ),
        Goal::DisableAuthenticator { user_id, key, type_ } => out == Step::Ask(
            Flow::Totp(handlers::flow::TotpFlow::Disabling { user_id, key, type_ }),
            Action::Query(Query::TwoFactorOfType { user_id, atype: type_ }),
        ),
        Goal::GetRecover => handlers::flow::replies(
            out,
            replies::recover_view(user.totp_recover),
        ),
        Goal::GetEmail { user_id } => out == Step::Ask(
            Flow::Email(handlers::flow::EmailFlow::Showing),
            asks_for(user_id, TwoFactorType::Email),
        ),
        Goal::SendEmail { user_id, email } => email::sends(user_id, email@, out),
        Goal::ActivateEmail { user_id, email, token } => out == Step::Ask(
            Flow::Email(handlers::flow::EmailFlow::Proving { user_id, email, token }),
            asks_for(user_id, TwoFactorType::EmailVerificationChallenge),
        ),
        Goal::GetYubikey { user_id } => out == Step::Ask(
            Flow::Yubikey(handlers::flow::YubikeyFlow::Showing),
            asks_for(user_id, TwoFactorType::YubiKey),
        ),
        Goal::ActivateYubikey { job } => yubikey::recalls(job, out),
        Goal::GetWebauthn { user_id } => out == Step::Ask(
            Flow::Webauthn(WebauthnFlow::Loading { goal: WebauthnGoal::Show }),
            asks_for(user_id, TwoFactorType::Webauthn),
        ),
        Goal::GetWebauthnChallenge { user_id, rp } => out == Step::Ask(
            Flow::Webauthn(
                WebauthnFlow::Loading {
                    goal: WebauthnGoal::Challenge { user_id, rp, user },
                },
            ),
            asks_for(user_id, TwoFactorType::Webauthn),
        ),
        Goal::ActivateWebauthn { user_id, rp, id, name, device_response } => webauthn::activates(
            user_id,
            rp,
            id,
            name,
            device_response,
            out,
        ),
        Goal::DeleteWebauthn { user_id, id } => webauthn::deletes(user_id, id, out),
    }
}

/// Goes on once the password was right.
pub fn pursue(goal: Goal, user: User) -> (out: Step)
    ensures
        pursues(goal, user, out),
{
    match goal {
        Goal::GetAuthenticator { user_id } => totp::show(user_id),
        Goal::ActivateAuthenticator { user_id, key, token } => totp::activate(user_id, key, token),
        Goal::Disable { user_id, type_ } => {
            let mut writes: Vec<Write> = Vec::new();
            writes.push(Write::DeleteType { user_id: user_id.clone(), atype: type_ });
            assert(writes@ =~= seq![Write::DeleteType { user_id, atype: type_ }]);
            let end: Result<Reply, AppError> = Ok(Reply::Json(replies::disabled(type_)));
            let ghost ending = end;
            let out = commit(writes, Upkeep::ClearRecovery { user_id }, end);
            assert(handlers::commit::commits(
                seq![Write::DeleteType { user_id, atype: type_ }],
                Upkeep::ClearRecovery { user_id },
                ending,
                out,
            ));
            out
        },
        Goal::DisableAuthenticator { user_id, key, type_ } => totp::disable(user_id, key, type_),
        Goal::GetRecover => reply(replies::recover(&user.totp_recover)),
        Goal::GetEmail { user_id } => email::show(user_id),
        Goal::SendEmail { user_id, email } => email::send(user_id, email.as_str()),
        Goal::ActivateEmail { user_id, email, token } => email::prove(user_id, email, token),
        Goal::GetYubikey { user_id } => yubikey::show(user_id),
        Goal::ActivateYubikey { job } => yubikey::recall(job),
        Goal::GetWebauthn { user_id } => webauthn::load(user_id, WebauthnGoal::Show),
        Goal::GetWebauthnChallenge { user_id, rp } => {
            let owner = user_id.clone();
            webauthn::load(owner, WebauthnGoal::Challenge { user_id, rp, user })
        },
        Goal::ActivateWebauthn { user_id, rp, id, name, device_response } => webauthn::activate(
            user_id,
            rp,
            id,
            name,
            device_response,
        ),
        Goal::DeleteWebauthn { user_id, id } => webauthn::delete(user_id, id),
    }
}

/// Whether this is what follows the account of a signed-in user: without a password to check, the
/// request is refused.
pub open spec fn lets_in(
    credentials: PasswordOrOtpData,
    goal: Goal,
    found: Option<User>,
    out: Step,
) -> bool {
    match (found, credentials.master_password_hash) {
        (None, _) => handlers::flow::fails(out, AppError::Unauthorized(Refusal::UserNotFound)),
        (Some(_), None) => handlers::flow::fails(
            out,
            AppError::Unauthorized(Refusal::PasswordInvalid),
        ),
        (Some(user), Some(password_hash)) => out == Step::Ask(
            Flow::CheckingPassword { user, goal },
            Action::VerifyPassword { user_id: user.id, password_hash },
        ),
    }
}

/// Has the password of a signed-in user checked.
pub fn let_in(credentials: PasswordOrOtpData, goal: Goal, found: Option<User>) -> (out: Step)
    ensures
        lets_in(credentials, goal, found, out),
{
    match found {
        None => fail(AppError::Unauthorized(Refusal::UserNotFound)),
        Some(user) => match credentials.master_password_hash {
            None => fail(AppError::Unauthorized(Refusal::PasswordInvalid)),
            Some(password_hash) => {
                let user_id = user.id.clone();
                Step::Ask(
                    Flow::CheckingPassword { user, goal },
                    Action::VerifyPassword { user_id, password_hash },
                )
            },
        },
    }
}

/// Whether this is what follows the account of someone who logs in. Whatever is wrong, they are
/// told the same.
pub open spec fn lets_in_login(
    password_hash: Option<String>,
    found: Option<User>,
    out: Step,
) -> bool {
    match (found, password_hash) {
        (Some(user), Some(hash)) => if hash@.len() == 0 {
            handlers::flow::fails(out, AppError::Unauthorized(Refusal::LoginIncorrect))
        } else {
            out == Step::Ask(
                Flow::CheckingLogin { user_id: user.id },
                Action::VerifyPassword { user_id: user.id, password_hash: hash },
            )
        },
        _ => handlers::flow::fails(out, AppError::Unauthorized(Refusal::LoginIncorrect)),
    }
}

/// Has the password of someone who logs in checked.
pub fn let_in_login(password_hash: Option<String>, found: Option<User>) -> (out: Step)
    ensures
        lets_in_login(password_hash, found, out),
{
    match (found, password_hash) {
        (Some(user), Some(hash)) => if hash.as_str().is_empty() {
            fail(AppError::Unauthorized(Refusal::LoginIncorrect))
        } else {
            let user_id = user.id.clone();
            Step::Ask(
                Flow::CheckingLogin { user_id: user.id },
                Action::VerifyPassword { user_id, password_hash: hash },
            )
        },
        _ => fail(AppError::Unauthorized(Refusal::LoginIncorrect)),
    }
}

/// Whether this is what follows an answer. An action that failed ends the request with its error,
/// and so does, with an internal error, an answer to something that was not asked.
pub open spec fn next(flow: Flow, event: Event, out: Step) -> bool {
    match (flow, event) {
        (_, Event::Failed(e)) => handlers::flow::fails(out, e),
        (Flow::ListingProviders, Event::Rows(rows)) => handlers::flow::replies(
            out,
            replies::provider_list_view(rows@),
        ),
        (Flow::FindingUser { credentials, goal }, Event::User(found)) => lets_in(
            credentials,
            goal,
            found,
            out,
        ),
        (Flow::CheckingPassword { user, goal }, Event::Password(right)) => if right {
            pursues(goal, user, out)
        } else {
            handlers::flow::fails(out, AppError::Unauthorized(Refusal::PasswordInvalid))
        },
        (Flow::FindingLogin { password_hash }, Event::User(found)) => lets_in_login(
            password_hash,
            found,
            out,
        ),
        (Flow::CheckingLogin { user_id }, Event::Password(right)) => if right {
            out == Step::Ask(
                Flow::Email(handlers::flow::EmailFlow::LoginFinding),
                asks_for(user_id, TwoFactorType::Email),
            )
        } else {
            handlers::flow::fails(out, AppError::Unauthorized(Refusal::LoginIncorrect))
        },
        (Flow::Totp(state), event) => totp::totp_next(state, event, out),
        (Flow::Email(state), event) => email::email_next(state, event, out),
        (Flow::Yubikey(state), event) => yubikey::yubikey_next(state, event, out),
        (Flow::Webauthn(state), event) => webauthn::webauthn_next(state, event, out),
        (Flow::Commit(state), event) => handlers::commit::commit_next(state, event, out),
        _ => handlers::flow::fails(out, AppError::Internal),
    }
}

/// What follows an answer.
pub fn step(flow: Flow, event: Event) -> (out: Step)
    ensures
        next(flow, event, out),
{
    match (flow, event) {
        (_, Event::Failed(e)) => fail(e),
        (Flow::ListingProviders, Event::Rows(rows)) => reply(replies::provider_list(&rows)),
        (Flow::FindingUser { credentials, goal }, Event::User(found)) => let_in(
            credentials,
            goal,
            found,
        ),
        (Flow::CheckingPassword { user, goal }, Event::Password(right)) => if right {
            pursue(goal, user)
        } else {
            fail(AppError::Unauthorized(Refusal::PasswordInvalid))
        },
        (Flow::FindingLogin { password_hash }, Event::User(found)) => let_in_login(
            password_hash,
            found,
        ),
        (Flow::CheckingLogin { user_id }, Event::Password(right)) => if right {
            email::send_login_email_token(user_id)
        } else {
            fail(AppError::Unauthorized(Refusal::LoginIncorrect))
        },
        (Flow::Totp(state), event) => totp_step(state, event),
        (Flow::Email(state), event) => email_step(state, event),
        (Flow::Yubikey(state), event) => yubikey_step(state, event),
        (Flow::Webauthn(state), event) => webauthn_step(state, event),
        (Flow::Commit(state), event) => commit_step(state, event),
        _ => fail(AppError::Internal),
    }
}

// ---------------------------------------------------------------------------------------------
// Laws of whole requests
// ---------------------------------------------------------------------------------------------

/// A request, as far as it was run: where it stood, what it asked for there, and what it was
/// answered. The last action is yet to be answered.
pub struct Run {
    pub flows: Seq<Flow>,
    pub actions: Seq<Action>,
    pub events: Seq<Event>,
}

impl Run {
    /// Whether every step follows from the answer before it.
    pub open spec fn valid(self) -> bool {
        &&& self.flows.len() == self.actions.len()
        &&& self.flows.len() == self.events.len() + 1
        &&& forall|i: int| #![trigger self.events[i]]
            0 <= i < self.events.len() ==> next(
                self.flows[i],
                self.events[i],
                Step::Ask(self.flows[i + 1], self.actions[i + 1]),
            )
    }

    /// Whether the request ends, after its last action is answered with `event`, as in `end`.
    pub open spec fn ends(self, event: Event, end: Result<Reply, AppError>) -> bool {
        self.valid() && next(self.flows.last(), event, Step::Done(end))
    }
}

/// A failed action ends a request with its error: nothing more is asked for.
pub proof fn law_failure_ends_a_request(flow: Flow, e: AppError, out: Step)
    requires
        next(flow, Event::Failed(e), out),
    ensures
        out == Step::Done(Err(e)),
{
}

/// Whatever a signed-in user asks for, nothing is done for it before their password was found to be
/// right: a request looks up the account, then has the password checked, and every later action
/// comes after the answer that it is right.
pub proof fn law_password_comes_first(
    run: Run,
    credentials: PasswordOrOtpData,
    goal: Goal,
    k: int,
)
    requires
        run.valid(),
        run.flows[0] == (Flow::FindingUser { credentials, goal }),
        2 <= k < run.actions.len(),
    ensures
        run.events[0] matches Event::User(Some(user)) && run.actions[1] == (Action::VerifyPassword {
            user_id: user.id,
            password_hash: credentials.master_password_hash->0,
        }),
        run.events[1] == Event::Password(true),
{
    let first = run.events[0];
    let second = run.events[1];
    assert(next(run.flows[0], first, Step::Ask(run.flows[1], run.actions[1])));
    assert(next(run.flows[1], second, Step::Ask(run.flows[2], run.actions[2])));
}

/// Whatever a signed-in user asks for, it is answered with success only after their password was
/// found to be right.
pub proof fn law_no_success_without_password(
    run: Run,
    credentials: PasswordOrOtpData,
    goal: Goal,
    event: Event,
    end: Result<Reply, AppError>,
)
    requires
        run.ends(event, end),
        run.flows[0] == (Flow::FindingUser { credentials, goal }),
        end is Ok,
    ensures
        run.events.push(event).len() >= 2,
        run.events.push(event)[1] == Event::Password(true),
{
    let all = run.events.push(event);
    if run.events.len() == 0 {
        assert(next(run.flows[0], event, Step::Done(end)));
    } else {
        let first = run.events[0];
        assert(next(run.flows[0], first, Step::Ask(run.flows[1], run.actions[1])));
        if run.events.len() == 1 {
            assert(next(run.flows[1], event, Step::Done(end)));
        } else {
            let second = run.events[1];
            assert(next(run.flows[1], second, Step::Ask(run.flows[2], run.actions[2])));
        }
    }
}

/// A login code is sent only after the password of the account was found to be right.
pub proof fn law_login_code_needs_password(run: Run, password_hash: Option<String>, k: int)
    requires
        run.valid(),
        run.flows[0] == (Flow::FindingLogin { password_hash }),
        2 <= k < run.actions.len(),
    ensures
        run.events[1] == Event::Password(true),
        run.actions[1] is VerifyPassword,
{
    let first = run.events[0];
    let second = run.events[1];
    assert(next(run.flows[0], first, Step::Ask(run.flows[1], run.actions[1])));
    assert(next(run.flows[1], second, Step::Ask(run.flows[2], run.actions[2])));
}

/// Whoever logs in with a wrong address, without a password or with a wrong one is told the same.
pub proof fn law_login_failures_look_alike(
    password_hash: Option<String>,
    found: Option<User>,
    user_id: String,
    first: Step,
    second: Step,
)
    requires
        next(Flow::FindingLogin { password_hash }, Event::User(found), first),
        next(Flow::CheckingLogin { user_id }, Event::Password(false), second),
    ensures
        first is Done ==> first == second,
        second == Step::Done(Err(AppError::Unauthorized(Refusal::LoginIncorrect))),
{
}

/// The changes of a request are made in the order in which it hands them over, each one only after
/// the one before it was made.
pub proof fn law_changes_are_made_in_order(
    run: Run,
    writes: Vec<Write>,
    upkeep: Upkeep,
    end: Result<Reply, AppError>,
    k: int,
)
    requires
        run.valid(),
        run.flows[0] == Flow::Commit(Commit::Writing { writes, upkeep, end }),
        0 <= k < writes@.len(),
        k < run.events.len(),
    ensures
        run.actions[k + 1] == Action::Write(writes@[k]),
        run.events[k] == Event::Done,
{
    lemma_writing(run, writes, upkeep, end, k);
    let event = run.events[k];
    assert(next(run.flows[k], event, Step::Ask(run.flows[k + 1], run.actions[k + 1])));
}

/// Where a request stands that has changes to make, once some are made.
proof fn lemma_writing(
    run: Run,
    writes: Vec<Write>,
    upkeep: Upkeep,
    end: Result<Reply, AppError>,
    k: int,
)
    requires
        run.valid(),
        run.flows[0] == Flow::Commit(Commit::Writing { writes, upkeep, end }),
        0 <= k <= writes@.len(),
        k < run.flows.len(),
    ensures
        run.flows[k] matches Flow::Commit(Commit::Writing { writes: rest, upkeep: u, end: e })
            && rest@ == writes@.skip(k) && u == upkeep && e == end,
    decreases k,
{
    if k == 0 {
        assert(writes@.skip(0) =~= writes@);
    } else {
        lemma_writing(run, writes, upkeep, end, k - 1);
        let event = run.events[k - 1];
        assert(next(run.flows[k - 1], event, Step::Ask(run.flows[k], run.actions[k])));
        assert(writes@.skip(k - 1).drop_first() =~= writes@.skip(k));
    }
}

/// A request that has changes to make is answered as it says only after every one of them was made.
pub proof fn law_no_answer_before_the_changes(
    run: Run,
    writes: Vec<Write>,
    upkeep: Upkeep,
    end: Result<Reply, AppError>,
    event: Event,
    answer: Result<Reply, AppError>,
)
    requires
        run.ends(event, answer),
        run.flows[0] == Flow::Commit(Commit::Writing { writes, upkeep, end }),
        answer is Ok,
    ensures
        run.events.len() >= writes@.len(),
        answer == end,
{
    let n = run.events.len() as int;
    if n <= writes@.len() {
        lemma_writing(run, writes, upkeep, end, n);
        assert(next(run.flows[n], event, Step::Done(answer)));
    } else {
        lemma_writing(run, writes, upkeep, end, writes@.len() as int);
        lemma_tail_keeps_end(run, end, writes@.len() as int, n);
        assert(next(run.flows[n], event, Step::Done(answer)));
    }
}

/// What a request that is past its changes will be answered with.
pub open spec fn answers(flow: Flow, end: Result<Reply, AppError>) -> bool {
    match flow {
        Flow::Commit(Commit::Writing { writes, end: e, .. }) => writes@.len() == 0 && e == end,
        Flow::Commit(Commit::ReadingRecovery { end: e, .. }) => e == end,
        Flow::Commit(Commit::MakingRecovery { end: e, .. }) => e == end,
        Flow::Commit(Commit::CountingProviders { end: e, .. }) => e == end,
        Flow::Commit(Commit::Finishing { end: e }) => e == end,
        _ => false,
    }
}

/// A request that is past its changes, and succeeds, is answered as it said.
pub proof fn lemma_answer_is_kept(
    run: Run,
    end: Result<Reply, AppError>,
    from: int,
    n: int,
)
    requires
        run.valid(),
        n == run.events.len(),
        0 <= from <= n,
        answers(run.flows[from], end),
    ensures
        forall|event: Event, answer: Result<Reply, AppError>|
            #[trigger] run.ends(event, answer) && answer is Ok ==> answer == end,
{
    lemma_tail_keeps_end(run, end, from, n);
    assert forall|event: Event, answer: Result<Reply, AppError>|
        #[trigger] run.ends(event, answer) && answer is Ok implies answer == end by {
        assert(next(run.flows[n], event, Step::Done(answer)));
    }
}

/// Past its changes a request keeps what it will be answered with.
proof fn lemma_tail_keeps_end(run: Run, end: Result<Reply, AppError>, from: int, to: int)
    requires
        run.valid(),
        0 <= from <= to < run.flows.len(),
        answers(run.flows[from], end),
    ensures
        answers(run.flows[to], end),
    decreases to - from,
{
    if from < to {
        lemma_tail_keeps_end(run, end, from, to - 1);
        let event = run.events[to - 1];
        assert(next(run.flows[to - 1], event, Step::Ask(run.flows[to], run.actions[to])));
    }
}

/// Whether no change that a request has yet to make is one to a recovery code.
pub open spec fn leaves_recovery(flow: Flow) -> bool {
    match flow {
        Flow::Commit(Commit::Writing { writes, .. }) => forall|i: int|
            0 <= i < writes@.len() ==> !touches_recovery(#[trigger] writes@[i]),
        _ => true,
    }
}

/// Whether a request waits for a new recovery code.
pub open spec fn makes_recovery(flow: Flow) -> bool {
    flow matches Flow::Commit(Commit::MakingRecovery { .. })
}

/// Whether no record was found.
pub open spec fn none_left(event: Event) -> bool {
    match event {
        Event::Rows(left) => left@.len() == 0,
        _ => false,
    }
}

/// Whether a change is one to a recovery code.
pub open spec fn touches_recovery(write: Write) -> bool {
    write is SetRecovery || write is ClearRecovery
}

/// A request gives an account a recovery code only after the account was found to have none, and
/// takes the code away only after no provider was found to be left.
pub proof fn law_recovery_code_follows_the_providers(
    run: Run,
    credentials: PasswordOrOtpData,
    goal: Goal,
    k: int,
    write: Write,
)
    requires
        run.valid(),
        run.flows[0] == (Flow::FindingUser { credentials, goal }),
        0 < k < run.actions.len(),
        run.actions[k] == Action::Write(write),
        touches_recovery(write),
    ensures
        write is SetRecovery ==> k >= 2 && run.events[k - 2] == Event::RecoveryCode(Some(None))
            && run.events[k - 1] is Text,
        write is ClearRecovery ==> none_left(run.events[k - 1]),
{
    lemma_leaves_recovery(run, credentials, goal, k - 1);
    let event = run.events[k - 1];
    assert(next(run.flows[k - 1], event, Step::Ask(run.flows[k], run.actions[k])));
    lemma_one_step(run.flows[k - 1], event, run.flows[k], run.actions[k]);
    if write is SetRecovery {
        assert(makes_recovery(run.flows[k - 1]));
        assert(k >= 2);
        let before = run.events[k - 2];
        lemma_leaves_recovery(run, credentials, goal, k - 2);
        assert(next(run.flows[k - 2], before, Step::Ask(run.flows[k - 1], run.actions[k - 1])));
        lemma_one_step(run.flows[k - 2], before, run.flows[k - 1], run.actions[k - 1]);
    }
}

/// What one step says of recovery codes.
proof fn lemma_one_step(flow: Flow, event: Event, to: Flow, action: Action)
    requires
        leaves_recovery(flow),
        next(flow, event, Step::Ask(to, action)),
    ensures
        leaves_recovery(to),
        action matches Action::Write(w) ==> w is SetRecovery ==> makes_recovery(flow)
            && event is Text,
        action matches Action::Write(w) ==> w is ClearRecovery ==> none_left(event),
        makes_recovery(to) ==> event == Event::RecoveryCode(Some(None)),
{
}

/// No request queues a change to a recovery code.
proof fn lemma_leaves_recovery(run: Run, credentials: PasswordOrOtpData, goal: Goal, k: int)
    requires
        run.valid(),
        run.flows[0] == (Flow::FindingUser { credentials, goal }),
        0 <= k < run.flows.len(),
    ensures
        leaves_recovery(run.flows[k]),
    decreases k,
{
    if k > 0 {
        lemma_leaves_recovery(run, credentials, goal, k - 1);
        let event = run.events[k - 1];
        assert(next(run.flows[k - 1], event, Step::Ask(run.flows[k], run.actions[k])));
        lemma_one_step(run.flows[k - 1], event, run.flows[k], run.actions[k]);
    }
}

/// The challenge of a registration is used up before the client's answer is looked at: whatever
/// comes of the answer, the challenge is gone.
pub proof fn law_registration_challenge_is_used_up(run: Run, job: RegistrationJob, k: int)
    requires
        run.valid(),
        run.flows[0] == Flow::Webauthn(WebauthnFlow::Recalling { job }),
        3 <= k < run.actions.len(),
    ensures
        run.actions[2] == Action::Write(
            Write::DeleteType {
                user_id: job.user_id,
                atype: TwoFactorType::WebauthnRegisterChallenge.code(),
            },
        ),
        run.events[2] == Event::Done,
{
    let first = run.events[0];
    let second = run.events[1];
    let third = run.events[2];
    assert(next(run.flows[0], first, Step::Ask(run.flows[1], run.actions[1])));
    assert(next(run.flows[1], second, Step::Ask(run.flows[2], run.actions[2])));
    assert(next(run.flows[2], third, Step::Ask(run.flows[3], run.actions[3])));
}

/// The challenge of a login is used up before the client's answer is looked at: whatever comes of
/// the answer, the challenge is gone.
pub proof fn law_login_challenge_is_used_up(
    run: Run,
    user_id: String,
    rp: RelyingParty,
    assertion_json: String,
    k: int,
)
    requires
        run.valid(),
        run.flows[0] == Flow::Webauthn(
            WebauthnFlow::LoginRecalling { user_id, rp, assertion_json },
        ),
        3 <= k < run.actions.len(),
    ensures
        run.actions[2] == Action::Write(
            Write::DeleteType { user_id, atype: TwoFactorType::WebauthnLoginChallenge.code() },
        ),
        run.events[2] == Event::Done,
{
    let first = run.events[0];
    let second = run.events[1];
    let third = run.events[2];
    assert(next(run.flows[0], first, Step::Ask(run.flows[1], run.actions[1])));
    assert(next(run.flows[1], second, Step::Ask(run.flows[2], run.actions[2])));
    assert(next(run.flows[2], third, Step::Ask(run.flows[3], run.actions[3])));
}

} // verus!
