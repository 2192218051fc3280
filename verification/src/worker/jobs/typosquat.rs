//! The detection job that runs for each newly published package. The job
//! itself reads no data store and sends no mail: it says, step by step, what
//! is to be done next, and is told how that went.

use crate::typosquat::cache::{texts, Cache, CacheError};
use crate::typosquat::checks::CheckKind;
use crate::typosquat::harness::{CandidatePackage, Harness};
use crate::typosquat::squat::{explanation_of, squat_views, Squat};
use vstd::prelude::*;
use vstd::string::StringExecFns;

verus! {

// ---------------------------------------------------------------------------
// The notification
// ---------------------------------------------------------------------------

/// The subject of every notification.
pub open spec fn email_subject() -> Seq<char> {
    "Possible typosquatting in new crate"@
}

/// The line of the notification that tells of one squat.
pub open spec fn squat_line(domain: Seq<char>, squat: (CheckKind, Seq<char>)) -> Seq<char> {
    "- "@ + explanation_of(squat) + " (https://"@ + domain + "/crates/"@ + squat.1 + ")\n"@
}

/// The lines of all squats, in their order.
pub open spec fn squat_lines(domain: Seq<char>, squats: Seq<(CheckKind, Seq<char>)>) -> Seq<char>
    decreases squats.len(),
{
    if squats.len() == 0 {
        Seq::empty()
    } else {
        squat_lines(domain, squats.drop_last()) + squat_line(domain, squats.last())
    }
}

/// The body of the notification about `crate_name`.
pub open spec fn email_body(
    domain: Seq<char>,
    crate_name: Seq<char>,
    squats: Seq<(CheckKind, Seq<char>)>,
) -> Seq<char> {
    "New crate "@ + crate_name + " may be typosquatting one or more other crates.\n\nVisit https://"@
        + domain + "/crates/"@ + crate_name
        + " to see the offending crate.\n\n\n\nSpecific squat checks that triggered:\n\n\n\n"@
        + squat_lines(domain, squats)
}

/// The notification that operators get about a suspicious new package.
pub struct PossibleTyposquatEmail<'a> {
    /// The domain under which the registry shows its packages.
    pub domain: &'a str,
    /// The name of the new package.
    pub crate_name: &'a str,
    /// What the checks found.
    pub squats: &'a Vec<Squat>,
}

impl PossibleTyposquatEmail<'_> {
    pub fn subject(&self) -> (subject: &'static str)
        ensures
            subject@ == email_subject(),
    {
        "Possible typosquatting in new crate"
    }

    /// The text of the notification: which package is new, where to see it,
    /// and one line for each squat with a link to the package it resembles.
    pub fn body(&self) -> (body: String)
        ensures
            body@ == email_body(self.domain@, self.crate_name@, squat_views(self.squats@)),
    {
        let mut body = String::new();
        body.append("New crate ");
        body.append(self.crate_name);
        body.append(" may be typosquatting one or more other crates.\n\nVisit https://");
        body.append(self.domain);
        body.append("/crates/");
        body.append(self.crate_name);
        body.append(
            " to see the offending crate.\n\n\n\nSpecific squat checks that triggered:\n\n\n\n",
        );
        let ghost head = body@;
        let ghost views = squat_views(self.squats@);
        let mut i: usize = 0;
        while i < self.squats.len()
            invariant
                i <= self.squats.len(),
                views == squat_views(self.squats@),
                body@ == head + squat_lines(self.domain@, views.take(i as int)),
            decreases self.squats.len() - i,
        {
            let squat = &self.squats[i];
            let mut line = String::new();
            line.append("- ");
            line.append(squat.explanation().as_str());
            line.append(" (https://");
            line.append(self.domain);
            line.append("/crates/");
            line.append(squat.package());
            line.append(")\n");
            proof {
                assert(views.take(i + 1).drop_last() =~= views.take(i as int));
                assert(views.take(i + 1).last() == squat@);
                assert(line@ =~= squat_line(self.domain@, squat@));
            }
            body.append(line.as_str());
            assert(body@ =~= head + squat_lines(self.domain@, views.take(i + 1)));
            i += 1;
        }
        assert(views.take(self.squats.len() as int) =~= views);
        body
    }
}

// ---------------------------------------------------------------------------
// What the job hands out and takes back
// ---------------------------------------------------------------------------

/// One message to one recipient.
#[derive(Debug)]
pub struct Message {
    pub to: String,
    pub subject: String,
    pub body: String,
}

pub struct MessageView {
    pub to: Seq<char>,
    pub subject: Seq<char>,
    pub body: Seq<char>,
}

impl View for Message {
    type V = MessageView;

    open spec fn view(&self) -> MessageView {
        MessageView { to: self.to@, subject: self.subject@, body: self.body@ }
    }
}

/// How the delivery to one recipient went.
#[derive(Debug)]
pub struct Delivery {
    pub recipient: String,
    /// Why the delivery failed, or `None` where it did not.
    pub failure: Option<String>,
}

pub struct DeliveryView {
    pub recipient: Seq<char>,
    pub failure: Option<Seq<char>>,
}

/// The text of an optional string.
pub open spec fn text_of(s: Option<String>) -> Option<Seq<char>> {
    match s {
        Some(s) => Some(s@),
        None => None,
    }
}

impl View for Delivery {
    type V = DeliveryView;

    open spec fn view(&self) -> DeliveryView {
        DeliveryView { recipient: self.recipient@, failure: text_of(self.failure) }
    }
}

pub open spec fn delivery_views(deliveries: Seq<Delivery>) -> Seq<DeliveryView> {
    deliveries.map_values(|delivery: Delivery| delivery@)
}

/// A notification that has not yet gone to every recipient.
#[derive(Debug)]
pub struct Pending {
    pub subject: String,
    pub body: String,
    pub squats: Vec<Squat>,
    /// The deliveries attempted so far, in the order of the recipients.
    pub deliveries: Vec<Delivery>,
}

pub struct PendingView {
    pub subject: Seq<char>,
    pub body: Seq<char>,
    pub squats: Seq<(CheckKind, Seq<char>)>,
    pub deliveries: Seq<DeliveryView>,
}

impl View for Pending {
    type V = PendingView;

    open spec fn view(&self) -> PendingView {
        PendingView {
            subject: self.subject@,
            body: self.body@,
            squats: squat_views(self.squats@),
            deliveries: delivery_views(self.deliveries@),
        }
    }
}

/// What a finished job found and whom it tried to tell.
#[derive(Debug)]
pub struct Report {
    pub squats: Vec<Squat>,
    pub deliveries: Vec<Delivery>,
}

pub struct ReportView {
    pub squats: Seq<(CheckKind, Seq<char>)>,
    pub deliveries: Seq<DeliveryView>,
}

impl View for Report {
    type V = ReportView;

    open spec fn view(&self) -> ReportView {
        ReportView {
            squats: squat_views(self.squats@),
            deliveries: delivery_views(self.deliveries@),
        }
    }
}

/// Why a job failed. A failed delivery is no such reason.
#[derive(Debug)]
pub enum JobError {
    /// The cache of popular packages could not be built.
    CacheBuild(String),
    /// The data of the candidate could not be loaded.
    CandidateLoad(String),
}

pub enum JobErrorView {
    CacheBuild(Seq<char>),
    CandidateLoad(Seq<char>),
}

impl View for JobError {
    type V = JobErrorView;

    open spec fn view(&self) -> JobErrorView {
        match self {
            JobError::CacheBuild(reason) => JobErrorView::CacheBuild(reason@),
            JobError::CandidateLoad(reason) => JobErrorView::CandidateLoad(reason@),
        }
    }
}

impl JobError {
    /// The failure of a job whose cache could not be built.
    pub fn cache_build(error: CacheError) -> (failure: JobError)
        ensures
            error matches CacheError::Query(reason) && failure@ == JobErrorView::CacheBuild(
                reason@,
            ),
    {
        match error {
            CacheError::Query(reason) => JobError::CacheBuild(reason),
        }
    }
}

/// What is to be done next.
#[derive(Debug)]
pub enum Step {
    /// Load the data of the candidate, then call `candidate_loaded`.
    LoadCandidate,
    /// Send the message, then call `delivery_done` with what is pending.
    Deliver(Message, Pending),
    /// The job is over.
    Finished(Result<Report, JobError>),
}

pub enum StepView {
    LoadCandidate,
    Deliver(MessageView, PendingView),
    Finished(Result<ReportView, JobErrorView>),
}

impl View for Step {
    type V = StepView;

    open spec fn view(&self) -> StepView {
        match self {
            Step::LoadCandidate => StepView::LoadCandidate,
            Step::Deliver(message, pending) => StepView::Deliver(message@, pending@),
            Step::Finished(Ok(report)) => StepView::Finished(Ok(report@)),
            Step::Finished(Err(error)) => StepView::Finished(Err(error@)),
        }
    }
}

// ---------------------------------------------------------------------------
// The steps of a job
// ---------------------------------------------------------------------------

/// The end of a job that found nothing and told nobody.
pub open spec fn nothing_found() -> StepView {
    StepView::Finished(Ok(ReportView { squats: Seq::empty(), deliveries: Seq::empty() }))
}

/// The first step: without a harness the job is over at once.
pub open spec fn first_step(harness: Option<Harness>) -> StepView {
    if harness is None {
        nothing_found()
    } else {
        StepView::LoadCandidate
    }
}

/// The step that follows when `pending` has gone to the first
/// `pending.deliveries.len()` recipients: the message to the next one, or
/// the end of the job.
pub open spec fn next_delivery(recipients: Seq<Seq<char>>, pending: PendingView) -> StepView {
    if pending.deliveries.len() < recipients.len() {
        StepView::Deliver(
            MessageView {
                to: recipients[pending.deliveries.len() as int],
                subject: pending.subject,
                body: pending.body,
            },
            pending,
        )
    } else {
        StepView::Finished(Ok(ReportView { squats: pending.squats, deliveries: pending.deliveries }))
    }
}

/// The step that follows the attempt to load the candidate, which failed
/// with `failure` or did not fail.
pub open spec fn step_after_load(
    name: Seq<char>,
    domain: Seq<char>,
    recipients: Seq<Seq<char>>,
    harness: Option<Harness>,
    failure: Option<Seq<char>>,
) -> StepView {
    match harness {
        None => nothing_found(),
        Some(harness) => match failure {
            Some(reason) => StepView::Finished(Err(JobErrorView::CandidateLoad(reason))),
            None => {
                let squats = harness.squats(name);
                if squats.len() == 0 {
                    nothing_found()
                } else {
                    next_delivery(
                        recipients,
                        PendingView {
                            subject: email_subject(),
                            body: email_body(domain, name, squats),
                            squats,
                            deliveries: Seq::empty(),
                        },
                    )
                }
            },
        },
    }
}

/// The step that follows a delivery, which failed with `failure` or did not
/// fail: the outcome is recorded, and the next recipient has their turn.
pub open spec fn step_after_delivery(
    recipients: Seq<Seq<char>>,
    pending: PendingView,
    failure: Option<Seq<char>>,
) -> StepView {
    if pending.deliveries.len() < recipients.len() {
        let delivery = DeliveryView {
            recipient: recipients[pending.deliveries.len() as int],
            failure,
        };
        next_delivery(
            recipients,
            PendingView {
                subject: pending.subject,
                body: pending.body,
                squats: pending.squats,
                deliveries: pending.deliveries.push(delivery),
            },
        )
    } else {
        next_delivery(recipients, pending)
    }
}

/// The text of the error of a result, where it has one.
pub open spec fn failure_of<T>(outcome: Result<T, String>) -> Option<Seq<char>> {
    match outcome {
        Ok(_) => None,
        Err(reason) => Some(reason@),
    }
}

fn nothing_to_report() -> (step: Step)
    ensures
        step@ == nothing_found(),
{
    let step = Step::Finished(Ok(Report { squats: Vec::new(), deliveries: Vec::new() }));
    assert(squat_views(Seq::<Squat>::empty()) =~= Seq::empty());
    assert(delivery_views(Seq::<Delivery>::empty()) =~= Seq::empty());
    step
}

fn deliver_next(emails: &Vec<String>, pending: Pending) -> (step: Step)
    ensures
        step@ == next_delivery(texts(emails@), pending@),
{
    let sent = pending.deliveries.len();
    if sent < emails.len() {
        let message = Message {
            to: emails[sent].clone(),
            subject: pending.subject.clone(),
            body: pending.body.clone(),
        };
        Step::Deliver(message, pending)
    } else {
        Step::Finished(Ok(Report { squats: pending.squats, deliveries: pending.deliveries }))
    }
}

/// A job to check the name of a newly published package against the most
/// popular packages.
#[derive(Debug)]
pub struct CheckTyposquat {
    pub name: String,
}

impl CheckTyposquat {
    pub fn new(name: &str) -> (job: Self)
        ensures
            job.name@ == name@,
    {
        CheckTyposquat { name: name.to_string() }
    }

    /// Starts the job: with a harness the candidate is to be loaded, without
    /// one there is nothing to do.
    pub fn begin(&self, cache: &Cache) -> (step: Step)
        ensures
            step@ == first_step(cache.harness()),
    {
        match cache.get_harness() {
            None => nothing_to_report(),
            Some(_) => Step::LoadCandidate,
        }
    }

    /// Goes on when the data store has answered. A candidate that could not
    /// be loaded fails the job. One that was loaded is checked; where a check
    /// fires, one notification is composed and its first delivery is due.
    pub fn candidate_loaded(
        &self,
        cache: &Cache,
        domain: &str,
        loaded: Result<CandidatePackage, String>,
    ) -> (step: Step)
        ensures
            step@ == step_after_load(
                self.name@,
                domain@,
                cache.recipients(),
                cache.harness(),
                failure_of(loaded),
            ),
    {
        let harness = match cache.get_harness() {
            None => {
                return nothing_to_report();
            },
            Some(harness) => harness,
        };
        let package = match loaded {
            Err(reason) => {
                return Step::Finished(Err(JobError::CandidateLoad(reason)));
            },
            Ok(package) => package,
        };
        let squats = harness.check_package(self.name.as_str(), &package);
        if squats.len() == 0 {
            return nothing_to_report();
        }
        let email = PossibleTyposquatEmail {
            domain,
            crate_name: self.name.as_str(),
            squats: &squats,
        };
        let subject = email.subject().to_string();
        let body = email.body();
        let pending = Pending { subject, body, squats, deliveries: Vec::new() };
        assert(delivery_views(pending.deliveries@) =~= Seq::empty());
        deliver_next(cache.iter_emails(), pending)
    }

    /// Goes on when a delivery has been attempted. Whether it failed or not,
    /// the outcome is recorded and the next recipient has their turn; after
    /// the last one the job ends in success.
    pub fn delivery_done(&self, cache: &Cache, pending: Pending, outcome: Result<(), String>) -> (step:
        Step)
        ensures
            step@ == step_after_delivery(cache.recipients(), pending@, failure_of(outcome)),
    {
        let emails = cache.iter_emails();
        let sent = pending.deliveries.len();
        if sent < emails.len() {
            let failure = match outcome {
                Ok(_) => None,
                Err(reason) => Some(reason),
            };
            let delivery = Delivery { recipient: emails[sent].clone(), failure };
            let ghost before = delivery_views(pending.deliveries@);
            let mut pending = pending;
            pending.deliveries.push(delivery);
            assert(delivery_views(pending.deliveries@) =~= before.push(delivery@));
            deliver_next(emails, pending)
        } else {
            deliver_next(emails, pending)
        }
    }
}

// ---------------------------------------------------------------------------
// What holds of every job
// ---------------------------------------------------------------------------

/// With a cache that has no harness the job ends at once, in success, with
/// nothing found and nobody told: before the candidate is loaded, and also
/// after, whatever its name and whether it could be loaded or not.
pub proof fn lemma_without_harness_nothing_happens(
    name: Seq<char>,
    domain: Seq<char>,
    recipients: Seq<Seq<char>>,
    failure: Option<Seq<char>>,
)
    ensures
        first_step(None) == nothing_found(),
        step_after_load(name, domain, recipients, None, failure) == nothing_found(),
{
}

/// A candidate for which no check fires ends the job in success without
/// any message.
pub proof fn lemma_clean_candidate_tells_nobody(
    name: Seq<char>,
    domain: Seq<char>,
    recipients: Seq<Seq<char>>,
    harness: Harness,
)
    requires
        harness.squats(name).len() == 0,
    ensures
        step_after_load(name, domain, recipients, Some(harness), None) == nothing_found(),
{
}

/// A candidate for which a check fires has the notification sent first to
/// the first recipient, where there is one.
pub proof fn lemma_squat_is_told_to_first_recipient(
    name: Seq<char>,
    domain: Seq<char>,
    recipients: Seq<Seq<char>>,
    harness: Harness,
)
    requires
        harness.squats(name).len() > 0,
        recipients.len() > 0,
    ensures
        step_after_load(name, domain, recipients, Some(harness), None) matches StepView::Deliver(
            message,
            pending,
        ) && message.to == recipients[0] && pending.deliveries.len() == 0 && pending.squats
            == harness.squats(name),
{
}

/// A delivery that failed stops nothing: while recipients are left, the
/// next step is the same message to the next of them, exactly as after a
/// delivery that went well.
pub proof fn lemma_failed_delivery_is_isolated(
    recipients: Seq<Seq<char>>,
    pending: PendingView,
    reason: Seq<char>,
)
    requires
        pending.deliveries.len() + 1 < recipients.len(),
    ensures
        step_after_delivery(recipients, pending, Some(reason)) matches StepView::Deliver(
            message,
            rest,
        ) && message.to == recipients[pending.deliveries.len() as int + 1] && message.subject
            == pending.subject && message.body == pending.body && rest.deliveries.len()
            == pending.deliveries.len() + 1,
        step_after_delivery(recipients, pending, None) matches StepView::Deliver(message, rest)
            && message.to == recipients[pending.deliveries.len() as int + 1] && message.subject
            == pending.subject && message.body == pending.body,
{
}

/// No delivery fails the job: after any delivery, failed or not, the job
/// either goes on to the next recipient or ends in success, and after the
/// last recipient it ends in success with one outcome for each of them.
pub proof fn lemma_deliveries_never_fail_the_job(
    recipients: Seq<Seq<char>>,
    pending: PendingView,
    failure: Option<Seq<char>>,
)
    ensures
        !(step_after_delivery(recipients, pending, failure) matches StepView::Finished(Err(_))),
        step_after_delivery(recipients, pending, failure) != StepView::LoadCandidate,
        pending.deliveries.len() + 1 == recipients.len() ==> (step_after_delivery(
            recipients,
            pending,
            failure,
        ) matches StepView::Finished(Ok(report)) && report.deliveries.len() == recipients.len()
            && report.deliveries.last().failure == failure && report.squats == pending.squats),
{
}

/// The first deliveries went to the first recipients, one each, in order.
pub open spec fn in_turn(recipients: Seq<Seq<char>>, deliveries: Seq<DeliveryView>) -> bool {
    &&& deliveries.len() <= recipients.len()
    &&& forall|i: int|
        0 <= i < deliveries.len() ==> (#[trigger] deliveries[i]).recipient == recipients[i]
}

/// Where a job ends when the deliveries that it asks for, one after
/// another, go as `outcomes` say: each is `None` for a delivery that went
/// well, or the reason why it failed.
pub open spec fn step_after_deliveries(
    recipients: Seq<Seq<char>>,
    step: StepView,
    outcomes: Seq<Option<Seq<char>>>,
) -> StepView
    decreases outcomes.len(),
{
    if outcomes.len() == 0 {
        step
    } else {
        match step {
            StepView::Deliver(_, pending) => step_after_deliveries(
                recipients,
                step_after_delivery(recipients, pending, outcomes[0]),
                outcomes.drop_first(),
            ),
            _ => step,
        }
    }
}

/// The deliveries to the recipients from `from` on, with their outcomes.
pub open spec fn deliveries_from(
    recipients: Seq<Seq<char>>,
    from: int,
    outcomes: Seq<Option<Seq<char>>>,
) -> Seq<DeliveryView> {
    Seq::new(
        outcomes.len(),
        |i: int| DeliveryView { recipient: recipients[from + i], failure: outcomes[i] },
    )
}

/// Whatever the outcomes of the deliveries are, the job asks for one
/// delivery to each recipient that is left, in order, and then ends in
/// success with all outcomes on record.
pub proof fn lemma_every_recipient_has_their_turn(
    recipients: Seq<Seq<char>>,
    pending: PendingView,
    outcomes: Seq<Option<Seq<char>>>,
)
    requires
        pending.deliveries.len() + outcomes.len() == recipients.len(),
    ensures
        step_after_deliveries(recipients, next_delivery(recipients, pending), outcomes)
            == StepView::Finished(
            Ok(
                ReportView {
                    squats: pending.squats,
                    deliveries: pending.deliveries + deliveries_from(
                        recipients,
                        pending.deliveries.len() as int,
                        outcomes,
                    ),
                },
            ),
        ),
    decreases outcomes.len(),
{
    let sent = pending.deliveries.len() as int;
    if outcomes.len() == 0 {
        assert(pending.deliveries + deliveries_from(recipients, sent, outcomes)
            =~= pending.deliveries);
    } else {
        let delivery = DeliveryView { recipient: recipients[sent], failure: outcomes[0] };
        let rest = PendingView {
            subject: pending.subject,
            body: pending.body,
            squats: pending.squats,
            deliveries: pending.deliveries.push(delivery),
        };
        assert(step_after_delivery(recipients, pending, outcomes[0]) == next_delivery(
            recipients,
            rest,
        ));
        lemma_every_recipient_has_their_turn(recipients, rest, outcomes.drop_first());
        assert(rest.deliveries + deliveries_from(recipients, sent + 1, outcomes.drop_first())
            =~= pending.deliveries + deliveries_from(recipients, sent, outcomes));
    }
}

/// Deliveries stay in turn: where each delivery so far went to the
/// recipient whose turn it was, the same holds after the next one.
pub proof fn lemma_deliveries_stay_in_turn(
    recipients: Seq<Seq<char>>,
    pending: PendingView,
    failure: Option<Seq<char>>,
)
    requires
        in_turn(recipients, pending.deliveries),
    ensures
        match step_after_delivery(recipients, pending, failure) {
            StepView::Deliver(message, rest) => in_turn(recipients, rest.deliveries)
                && rest.deliveries.len() < recipients.len() && message.to
                == recipients[rest.deliveries.len() as int],
            StepView::Finished(Ok(report)) => in_turn(recipients, report.deliveries)
                && report.deliveries.len() == recipients.len(),
            _ => false,
        },
{
}

} // verus!
