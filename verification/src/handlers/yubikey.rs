//! Requests about YubiKeys.
use super::commit::save;
use super::flow::{fail, reply, Flow, Step, Upkeep, YubikeyFlow, YubikeyJob};
use super::replies;
use crate::error::{AppError, Refusal};
use crate::exchange::{Action, Event, Payload, Reply};
use crate::models::twofactor::{TwoFactorType, YubikeyMetadata};
use crate::sorting::{sort_without_repetition, Ranked};
use crate::store::Query;
use crate::yubico::{otp_step, verify_otp, OtpStep, OTP_LEN};
use crate::{handlers, outside, sorting, text, yubico};
use vstd::prelude::*;

verus! {

broadcast use vstd::string::group_string_axioms;

/// How many bytes the public id of a key has: the first ones of its one-time passwords.
pub const PUBLIC_ID_LEN: usize = 12;

/// Asks for the record to show.
pub fn show(user_id: String) -> (out: Step)
    ensures
        out == Step::Ask(
            Flow::Yubikey(YubikeyFlow::Showing),
            Action::Query(Query::TwoFactorOfType { user_id, atype: TwoFactorType::YubiKey.code() }),
        ),
{
    Step::Ask(
        Flow::Yubikey(YubikeyFlow::Showing),
        Action::Query(Query::TwoFactorOfType { user_id, atype: TwoFactorType::YubiKey.to_i32() }),
    )
}

/// Where looking at what a client sent comes to a halt.
pub enum Scan {
    /// Everything was looked at, and these public ids were accepted.
    End { keys: Seq<Seq<char>> },
    /// Something is neither the public id of a registered key nor as long as a one-time password.
    BadLength,
    /// A one-time password must be verified before the rest is looked at.
    Verify { otp: Seq<char>, rest: Seq<String>, keys: Seq<Seq<char>> },
}

/// Looks at what a client sent, in order: blank texts are skipped, and public ids that are `known`
/// already are accepted without being verified again.
pub open spec fn scan(rest: Seq<String>, keys: Seq<Seq<char>>, known: Seq<Seq<char>>) -> Scan
    decreases rest.len(),
{
    if rest.len() == 0 {
        Scan::End { keys }
    } else {
        let otp = text::trimmed(rest.first()@);
        if otp.len() == 0 {
            scan(rest.drop_first(), keys, known)
        } else if text::byte_len(otp) == PUBLIC_ID_LEN && known.contains(
            outside::lowercase_of(otp),
        ) {
            scan(rest.drop_first(), keys.push(outside::lowercase_of(otp)), known)
        } else if text::byte_len(otp) != OTP_LEN {
            Scan::BadLength
        } else {
            Scan::Verify { otp, rest: rest.drop_first(), keys }
        }
    }
}

/// Where looking at what a client sent came to a halt.
#[derive(Debug)]
pub enum Scanned {
    End(YubikeyJob),
    BadLength,
    Verify(YubikeyJob, String),
}

/// Whether two jobs differ only in what was looked at and what was accepted.
pub open spec fn same_job(a: YubikeyJob, b: YubikeyJob) -> bool {
    a.user_id == b.user_id && a.settings == b.settings && a.known == b.known && a.nfc == b.nfc
}

/// Whether a text is one of these.
fn lists(texts: &Vec<String>, t: &str) -> (r: bool)
    ensures
        r == text::views(texts@).contains(t@),
{
    let mut i: usize = 0;
    while i < texts.len()
        invariant
            i <= texts.len(),
            forall|k: int| 0 <= k < i ==> (#[trigger] text::views(texts@)[k]) != t@,
        decreases texts.len() - i,
    {
        if text::same_text(texts[i].as_str(), t) {
            assert(text::views(texts@)[i as int] == t@);
            return true;
        }
        i = i + 1;
    }
    false
}

/// Looks at what a client sent, up to the first one-time password that must be verified.
pub fn scan_otps(job: YubikeyJob) -> (r: Scanned)
    ensures
        match (scan(job.rest@, text::views(job.keys@), text::views(job.known@)), r) {
            (Scan::End { keys }, Scanned::End(after)) => same_job(job, after) && text::views(
                after.keys@,
            ) == keys,
            (Scan::BadLength, Scanned::BadLength) => true,
            (Scan::Verify { otp, rest, keys }, Scanned::Verify(after, o)) => same_job(job, after)
                && o@ == otp && after.rest@ == rest && text::views(after.keys@) == keys,
            _ => false,
        },
{
    let mut work = job;
    while work.rest.len() > 0
        invariant
            scan(work.rest@, text::views(work.keys@), text::views(work.known@)) == scan(
                job.rest@,
                text::views(job.keys@),
                text::views(job.known@),
            ),
            same_job(job, work),
        decreases work.rest.len(),
    {
        let ghost before = work;
        let sent = work.rest.remove(0);
        assert(work.rest@ =~= before.rest@.drop_first());
        let otp = text::trim(sent.as_str());
        let id = otp.as_str().to_lowercase();
        if otp.as_str().is_empty() {
        } else if text::has_byte_len(otp.as_str(), PUBLIC_ID_LEN) && lists(
            &work.known,
            id.as_str(),
        ) {
            work.keys.push(id);
            assert(text::views(work.keys@) =~= text::views(before.keys@).push(
                outside::lowercase_of(otp@),
            ));
        } else if !text::has_byte_len(otp.as_str(), OTP_LEN) {
            return Scanned::BadLength;
        } else {
            return Scanned::Verify(work, otp);
        }
    }
    Scanned::End(work)
}

/// Whether `sorted` lists public ids in order, each once.
pub open spec fn lists_keys(keys: Seq<Seq<char>>, sorted: Seq<String>) -> bool {
    &&& sorting::strictly_ordered(sorted)
    &&& forall|i: int| 0 <= i < sorted.len() ==> keys.contains((#[trigger] sorted[i])@)
    &&& forall|j: int| 0 <= j < keys.len() ==> text::views(sorted).contains(#[trigger] keys[j])
}

/// Sorts public ids and drops repetitions.
pub fn sorted_keys(keys: Vec<String>) -> (r: Vec<String>)
    ensures
        lists_keys(text::views(keys@), r@),
        r@.len() == 0 <==> keys@.len() == 0,
{
    let ghost all = keys@;
    let ghost views = text::views(all);
    let r = sort_without_repetition(keys);
    proof {
        assert forall|i: int| 0 <= i < r@.len() implies views.contains((#[trigger] r@[i])@) by {
            assert(all.contains(r@[i]));
            let k = choose|k: int| 0 <= k < all.len() && all[k] == r@[i];
            assert(views[k] == r@[i]@);
        }
        assert forall|j: int| 0 <= j < views.len() implies text::views(r@).contains(
            #[trigger] views[j],
        ) by {
            assert(sorting::has_rank(r@, all[j]));
            let i = choose|i: int|
                0 <= i < r@.len() && sorting::same_rank(#[trigger] r@[i], all[j]);
            text::lemma_text_le_antisymmetric(r@[i]@, all[j]@);
            assert(text::views(r@)[i] == views[j]);
        }
        if all.len() > 0 {
            assert(text::views(r@).contains(views[0]));
        }
        if r@.len() > 0 {
            assert(views.contains(r@[0]@));
        }
    }
    r
}

/// Whether this is how the public ids that were accepted are stored.
pub open spec fn stores_keys(
    user_id: String,
    keys: Seq<Seq<char>>,
    nfc: bool,
    out: Step,
) -> bool {
    &&& out matches Step::Ask(flow, Action::Encode(Payload::Yubikey(meta)))
    &&& meta.nfc == nfc
    &&& lists_keys(keys, meta.keys@)
    &&& exists|end: Result<Reply, AppError>|
        handlers::flow::will_reply(end, replies::yubikeys_view(meta.keys@, true, nfc))
            && #[trigger] handlers::commit::saves(
            user_id,
            TwoFactorType::YubiKey,
            Payload::Yubikey(meta),
            Upkeep::IssueRecovery { user_id },
            end,
            out,
        )
}

/// Whether this is how a request waits while a one-time password is verified.
pub open spec fn asks_cloud(job: YubikeyJob, otp: String, step: OtpStep, out: Step) -> bool {
    match step {
        OtpStep::Ask(check, action) => out == Step::Ask(
            Flow::Yubikey(YubikeyFlow::Verifying { job, otp, check }),
            action,
        ),
        OtpStep::Done(Err(e)) => handlers::flow::fails(out, e),
        OtpStep::Done(Ok(_)) => false,
    }
}

/// Whether this is how an activation goes on.
pub open spec fn proceeds(job: YubikeyJob, out: Step) -> bool {
    match scan(job.rest@, text::views(job.keys@), text::views(job.known@)) {
        Scan::BadLength => handlers::flow::fails(out, AppError::BadRequest(Refusal::OtpLength)),
        Scan::End { keys } => if keys.len() == 0 {
            handlers::flow::fails(out, AppError::BadRequest(Refusal::OtpRequired))
        } else {
            stores_keys(job.user_id, keys, job.nfc, out)
        },
        Scan::Verify { otp, rest, keys } => exists|after: YubikeyJob, o: String, step: OtpStep|
            same_job(job, after) && after.rest@ == rest && text::views(after.keys@) == keys && o@
                == otp && yubico::starts_check(job.settings, otp, step) && #[trigger] asks_cloud(
                after,
                o,
                step,
                out,
            ),
    }
}

/// Stores the public ids that were accepted.
fn store_keys(job: YubikeyJob) -> (out: Step)
    requires
        job.keys@.len() > 0,
    ensures
        stores_keys(job.user_id, text::views(job.keys@), job.nfc, out),
{
    let keys = sorted_keys(job.keys);
    let end: Result<Reply, AppError> = Ok(
        Reply::Json(replies::jsonify_yubikeys(&keys, true, job.nfc)),
    );
    let ghost ending = end;
    let user_id = job.user_id.clone();
    let meta = YubikeyMetadata { keys, nfc: job.nfc };
    let ghost stored = meta;
    let out = save(
        user_id,
        TwoFactorType::YubiKey,
        Payload::Yubikey(meta),
        Upkeep::IssueRecovery { user_id: job.user_id },
        end,
    );
    assert(handlers::commit::saves(
        job.user_id,
        TwoFactorType::YubiKey,
        Payload::Yubikey(stored),
        Upkeep::IssueRecovery { user_id: job.user_id },
        ending,
        out,
    ));
    out
}

/// Goes on with an activation.
pub fn proceed(job: YubikeyJob) -> (out: Step)
    ensures
        proceeds(job, out),
{
    match scan_otps(job) {
        Scanned::BadLength => fail(AppError::BadRequest(Refusal::OtpLength)),
        Scanned::End(job) => if job.keys.len() == 0 {
            fail(AppError::BadRequest(Refusal::OtpRequired))
        } else {
            store_keys(job)
        },
        Scanned::Verify(job, otp) => {
            let ghost after = job;
            let ghost o = otp;
            let step = verify_otp(&job.settings, otp.as_str());
            let ghost started = step;
            let out = match step {
                OtpStep::Ask(check, action) => Step::Ask(
                    Flow::Yubikey(YubikeyFlow::Verifying { job, otp, check }),
                    action,
                ),
                OtpStep::Done(Err(e)) => fail(e),
                OtpStep::Done(Ok(_)) => fail(AppError::Internal),
            };
            assert(asks_cloud(after, o, started, out));
            out
        },
    }
}

/// Whether this is how the activation of keys starts: the record of those that the user has
/// registered already is looked up.
pub open spec fn recalls(job: YubikeyJob, out: Step) -> bool {
    out == Step::Ask(
        Flow::Yubikey(YubikeyFlow::Recalling { job }),
        Action::Query(
            Query::TwoFactorOfType { user_id: job.user_id, atype: TwoFactorType::YubiKey.code() },
        ),
    )
}

/// Starts the activation of keys.
pub fn recall(job: YubikeyJob) -> (out: Step)
    ensures
        recalls(job, out),
{
    let query = Query::TwoFactorOfType {
        user_id: job.user_id.clone(),
        atype: TwoFactorType::YubiKey.to_i32(),
    };
    Step::Ask(Flow::Yubikey(YubikeyFlow::Recalling { job }), Action::Query(query))
}

/// The public ids that a record holds, none where it cannot be read.
pub open spec fn registered(meta: Option<YubikeyMetadata>) -> Seq<String> {
    match meta {
        Some(m) => m.keys@,
        None => Seq::empty(),
    }
}

/// Whether this is how an activation goes on once it is known which keys are registered already.
pub open spec fn resumes(job: YubikeyJob, known: Seq<String>, out: Step) -> bool {
    exists|after: YubikeyJob|
        after.user_id == job.user_id && after.settings == job.settings && after.nfc == job.nfc
            && after.rest == job.rest && after.keys == job.keys && after.known@ == known
            && #[trigger] proceeds(after, out)
}

/// Goes on with an activation, now that it is known which keys are registered already.
pub fn resume(job: YubikeyJob, meta: Option<YubikeyMetadata>) -> (out: Step)
    ensures
        resumes(job, registered(meta), out),
{
    let known: Vec<String> = match meta {
        Some(m) => m.keys,
        None => Vec::new(),
    };
    let mut work = job;
    work.known = known;
    let ghost after = work;
    let out = proceed(work);
    assert(proceeds(after, out));
    out
}

/// Whether this is how an activation goes on once a one-time password was verified: its public id
/// is accepted. A password whose public id ends within a character is none that a key can make.
pub open spec fn accepts(job: YubikeyJob, otp: String, out: Step) -> bool {
    match text::leading_bytes(otp@, PUBLIC_ID_LEN as int) {
        None => handlers::flow::fails(out, AppError::Internal),
        Some(id) => exists|after: YubikeyJob|
            same_job(job, after) && after.rest == job.rest && text::views(after.keys@)
                == text::views(job.keys@).push(outside::lowercase_of(id)) && #[trigger] proceeds(
                after,
                out,
            ),
    }
}

/// Accepts the public id of a one-time password that was verified, and goes on.
fn accept(job: YubikeyJob, otp: String) -> (out: Step)
    ensures
        accepts(job, otp, out),
{
    match text::take_bytes(otp.as_str(), PUBLIC_ID_LEN) {
        None => fail(AppError::Internal),
        Some(id) => {
            let ghost before = job;
            let mut job = job;
            job.keys.push(id.as_str().to_lowercase());
            assert(text::views(job.keys@) =~= text::views(before.keys@).push(
                outside::lowercase_of(id@),
            ));
            let ghost after = job;
            let out = proceed(job);
            assert(proceeds(after, out));
            out
        },
    }
}

/// Whether this is how an activation goes on from a step of the verification.
pub open spec fn verifies(job: YubikeyJob, otp: String, step: OtpStep, out: Step) -> bool {
    if step == OtpStep::Done(Ok(())) {
        accepts(job, otp, out)
    } else {
        asks_cloud(job, otp, step, out)
    }
}

/// Whether this is what follows an answer in a request about YubiKeys.
pub open spec fn yubikey_next(state: YubikeyFlow, event: Event, out: Step) -> bool {
    match (state, event) {
        (YubikeyFlow::Showing, Event::Row(None)) => handlers::flow::replies(
            out,
            replies::no_yubikey_view(),
        ),
        (YubikeyFlow::Showing, Event::Row(Some(tf))) => out == Step::Ask(
            Flow::Yubikey(YubikeyFlow::ShowingData),
            Action::ReadYubikey { text: tf.data },
        ),
        (YubikeyFlow::ShowingData, Event::Yubikey(data)) => match data {
            None => handlers::flow::fails(
                out,
                AppError::BadRequest(Refusal::YubikeyDataUnreadable),
            ),
            Some(meta) => handlers::flow::replies(
                out,
                replies::yubikeys_view(meta.keys@, true, meta.nfc),
            ),
        },
        (YubikeyFlow::Recalling { job }, Event::Row(None)) => resumes(job, Seq::empty(), out),
        (YubikeyFlow::Recalling { job }, Event::Row(Some(tf))) => out == Step::Ask(
            Flow::Yubikey(YubikeyFlow::RecallingData { job }),
            Action::ReadYubikey { text: tf.data },
        ),
        (YubikeyFlow::RecallingData { job }, Event::Yubikey(data)) => resumes(
            job,
            registered(data),
            out,
        ),
        (YubikeyFlow::Verifying { job, otp, check }, event) => exists|step: OtpStep|
            yubico::otp_next(check, event, step) && #[trigger] verifies(job, otp, step, out),
        _ => handlers::flow::fails(out, AppError::Internal),
    }
}

/// What follows an answer in a request about YubiKeys.
pub fn yubikey_step(state: YubikeyFlow, event: Event) -> (out: Step)
    ensures
        yubikey_next(state, event, out),
{
    match (state, event) {
        (YubikeyFlow::Showing, Event::Row(None)) => reply(replies::no_yubikey()),
        (YubikeyFlow::Showing, Event::Row(Some(tf))) => Step::Ask(
            Flow::Yubikey(YubikeyFlow::ShowingData),
            Action::ReadYubikey { text: tf.data },
        ),
        (YubikeyFlow::ShowingData, Event::Yubikey(data)) => match data {
            None => fail(AppError::BadRequest(Refusal::YubikeyDataUnreadable)),
            Some(meta) => reply(replies::jsonify_yubikeys(&meta.keys, true, meta.nfc)),
        },
        (YubikeyFlow::Recalling { job }, Event::Row(None)) => resume(job, None),
        (YubikeyFlow::Recalling { job }, Event::Row(Some(tf))) => Step::Ask(
            Flow::Yubikey(YubikeyFlow::RecallingData { job }),
            Action::ReadYubikey { text: tf.data },
        ),
        (YubikeyFlow::RecallingData { job }, Event::Yubikey(data)) => resume(job, data),
        (YubikeyFlow::Verifying { job, otp, check }, event) => {
            let step = otp_step(check, event);
            let ghost made = step;
            let out = match step {
                OtpStep::Done(Ok(_)) => accept(job, otp),
                OtpStep::Done(Err(e)) => fail(e),
                OtpStep::Ask(check, action) => Step::Ask(
                    Flow::Yubikey(YubikeyFlow::Verifying { job, otp, check }),
                    action,
                ),
            };
            assert(verifies(job, otp, made, out));
            out
        },
        _ => fail(AppError::Internal),
    }
}

/// The public ids that are stored differ from each other.
pub proof fn law_stored_keys_differ(keys: Seq<Seq<char>>, sorted: Seq<String>, i: int, j: int)
    requires
        lists_keys(keys, sorted),
        0 <= i < j < sorted.len(),
    ensures
        sorted[i]@ != sorted[j]@,
{
    assert(sorted[i].precedes(sorted[j]) && !sorted[j].precedes(sorted[i]));
}

/// No more keys are accepted than the client sent.
pub proof fn law_no_more_keys_than_sent(
    rest: Seq<String>,
    keys: Seq<Seq<char>>,
    known: Seq<Seq<char>>,
)
    ensures
        match scan(rest, keys, known) {
            Scan::End { keys: found } => found.len() <= keys.len() + rest.len(),
            Scan::BadLength => true,
            Scan::Verify { rest: left, keys: found, .. } => found.len() + left.len() + 1
                <= keys.len() + rest.len(),
        },
    decreases rest.len(),
{
    if rest.len() > 0 {
        let otp = text::trimmed(rest.first()@);
        let id = outside::lowercase_of(otp);
        if otp.len() == 0 {
            law_no_more_keys_than_sent(rest.drop_first(), keys, known);
        } else if text::byte_len(otp) == PUBLIC_ID_LEN && known.contains(id) {
            law_no_more_keys_than_sent(rest.drop_first(), keys.push(id), known);
        }
    }
}

/// A public id that comes next is taken without verification where it is registered already, and ends
/// the activation where it is not.
pub proof fn law_unregistered_id_is_refused(
    rest: Seq<String>,
    keys: Seq<Seq<char>>,
    known: Seq<Seq<char>>,
    id: Seq<char>,
)
    requires
        rest.len() > 0,
        text::byte_len(text::trimmed(rest.first()@)) == PUBLIC_ID_LEN,
        id == outside::lowercase_of(text::trimmed(rest.first()@)),
    ensures
        !known.contains(id) ==> scan(rest, keys, known) is BadLength,
        known.contains(id) ==> scan(rest, keys, known) == scan(
            rest.drop_first(),
            keys.push(id),
            known,
        ),
{
}

/// While a one-time password is being verified, a request ends with an error, goes on verifying it,
/// or goes on with its public id accepted; and the last happens only where YubiCloud vouched for it.
pub proof fn law_key_is_accepted_only_when_vouched_for(
    job: YubikeyJob,
    otp: String,
    check: yubico::OtpCheck,
    event: Event,
    out: Step,
)
    requires
        yubikey_next(YubikeyFlow::Verifying { job, otp, check }, event, out),
    ensures
        ({
            ||| out matches Step::Done(Err(_))
            ||| still_verifying(job, otp, out)
            ||| (yubico::otp_next(check, event, OtpStep::Done(Ok(()))) && accepts(job, otp, out))
        }),
{
    let step = choose|step: OtpStep|
        yubico::otp_next(check, event, step) && #[trigger] verifies(job, otp, step, out);
    assert(verifies(job, otp, step, out));
}

/// Whether a request still waits for the verification of this one-time password.
pub open spec fn still_verifying(job: YubikeyJob, otp: String, out: Step) -> bool {
    out matches Step::Ask(Flow::Yubikey(YubikeyFlow::Verifying { job: j, otp: o, .. }), _) && j
        == job && o == otp
}

} // verus!
