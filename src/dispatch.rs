use vstd::prelude::*;
use crate::event_name::{EventName, classify};
use crate::model::{Snapshot, MyModel, Entity, AttrView, ProjectionError, project};

verus! {

/// One row-level mutation from the change source.
#[derive(Debug, PartialEq, Eq)]
pub struct ChangeRecord {
    /// The operation tag, one of the three tags that `EventName` classifies.
    pub event_name: String,
    /// The row before the mutation (empty where there was none).
    pub old_image: Snapshot,
    /// The row after the mutation (empty where there is none).
    pub new_image: Snapshot,
}

pub ghost struct RecordView {
    pub tag: Seq<char>,
    pub old_image: Seq<(Seq<char>, AttrView)>,
    pub new_image: Seq<(Seq<char>, AttrView)>,
}

impl View for ChangeRecord {
    type V = RecordView;

    open spec fn view(&self) -> RecordView {
        RecordView { tag: self.event_name@, old_image: self.old_image@, new_image: self.new_image@ }
    }
}

/// Why handling a batch stopped.
#[derive(Debug, Clone, Copy, PartialEq, Eq, Structural)]
pub enum HandlerError {
    /// A record's operation tag is not one of the three tags.
    UnknownEventName,
    /// A snapshot that the record's kind needs does not project.
    Projection(ProjectionError),
    /// A client credential is missing from the configuration.
    MissingCredential,
    /// The exchange of client credentials for an access token failed.
    TokenExchangeFailed,
    /// The identity lookup failed.
    LookupFailed,
    /// The identity lookup found no user with the stream's login.
    UserNotFound,
    /// An event arrived that the dispatcher was not waiting for.
    OutOfSequence,
}

/// What a handler writes to the log.
#[derive(Debug, PartialEq, Eq)]
pub enum Report {
    /// A stream was inserted (its new row).
    Inserted(MyModel),
    /// A stream was modified (its new row, then its old row).
    Modified(MyModel, MyModel),
    /// A stream was removed (its old row).
    Removed(MyModel),
    /// The broadcaster with this backend identifier went online.
    WentOnline(String),
}

pub ghost enum ReportView {
    Inserted(Entity),
    Modified(Entity, Entity),
    Removed(Entity),
    WentOnline(Seq<char>),
}

impl View for Report {
    type V = ReportView;

    open spec fn view(&self) -> ReportView {
        match self {
            Report::Inserted(m) => ReportView::Inserted(m@),
            Report::Modified(n, o) => ReportView::Modified(n@, o@),
            Report::Removed(m) => ReportView::Removed(m@),
            Report::WentOnline(id) => ReportView::WentOnline(id@),
        }
    }
}

/// What the dispatcher asks its driver to do next.
#[derive(Debug, PartialEq, Eq)]
pub enum Action {
    /// Write this report to the log, then answer `Proceed`.
    Log(Report),
    /// Read the client credentials and exchange them for an access token.
    AcquireToken,
    /// Look up the user with this login, using the token just acquired.
    LookupUser(String),
    /// The batch is over, with this outcome.
    Finish(Result<(), HandlerError>),
}

pub ghost enum ActionView {
    Log(ReportView),
    AcquireToken,
    LookupUser(Seq<char>),
    Finish(Result<(), HandlerError>),
}

impl View for Action {
    type V = ActionView;

    open spec fn view(&self) -> ActionView {
        match self {
            Action::Log(r) => ActionView::Log(r@),
            Action::AcquireToken => ActionView::AcquireToken,
            Action::LookupUser(l) => ActionView::LookupUser(l@),
            Action::Finish(r) => ActionView::Finish(*r),
        }
    }
}

/// What the driver reports back after an action.
#[derive(Debug, PartialEq, Eq)]
pub enum Event {
    /// The action was done (a log write), or the batch is to start.
    Proceed,
    /// A client credential could not be read.
    CredentialsMissing,
    /// The token exchange failed.
    TokenFailed,
    /// The token exchange gave a token.
    TokenAcquired,
    /// The lookup found a user; this is its backend identifier.
    UserFound(String),
    /// The lookup found no user.
    UserMissing,
    /// The lookup failed.
    LookupFailed,
}

pub ghost enum EventView {
    Proceed,
    CredentialsMissing,
    TokenFailed,
    TokenAcquired,
    UserFound(Seq<char>),
    UserMissing,
    LookupFailed,
}

impl View for Event {
    type V = EventView;

    open spec fn view(&self) -> EventView {
        match self {
            Event::Proceed => EventView::Proceed,
            Event::CredentialsMissing => EventView::CredentialsMissing,
            Event::TokenFailed => EventView::TokenFailed,
            Event::TokenAcquired => EventView::TokenAcquired,
            Event::UserFound(id) => EventView::UserFound(id@),
            Event::UserMissing => EventView::UserMissing,
            Event::LookupFailed => EventView::LookupFailed,
        }
    }
}

/// Where the dispatcher stands within the current record.
#[derive(Debug, PartialEq, Eq)]
pub enum Phase {
    /// About to handle the record at `next` (or to finish, past the last one).
    Ready,
    /// An inserted stream with this login was logged; a token comes next.
    TokenNext(String),
    /// Waiting for the token exchange; the lookup will be for this login.
    AwaitingToken(String),
    /// Waiting for the identity lookup.
    AwaitingUser,
    /// The batch is over with this outcome.
    Finished(Result<(), HandlerError>),
}

pub ghost enum PhaseView {
    Ready,
    TokenNext(Seq<char>),
    AwaitingToken(Seq<char>),
    AwaitingUser,
    Finished(Result<(), HandlerError>),
}

impl View for Phase {
    type V = PhaseView;

    open spec fn view(&self) -> PhaseView {
        match self {
            Phase::Ready => PhaseView::Ready,
            Phase::TokenNext(l) => PhaseView::TokenNext(l@),
            Phase::AwaitingToken(l) => PhaseView::AwaitingToken(l@),
            Phase::AwaitingUser => PhaseView::AwaitingUser,
            Phase::Finished(r) => PhaseView::Finished(*r),
        }
    }
}

/// Handles a batch of change records in order, one at a time, and stops at
/// the first failure.
pub struct Dispatcher {
    pub records: Vec<ChangeRecord>,
    /// Index of the record being handled; records before it are done.
    pub next: usize,
    pub phase: Phase,
}

pub ghost struct DispatcherView {
    pub records: Seq<RecordView>,
    pub next: nat,
    pub phase: PhaseView,
}

impl View for Dispatcher {
    type V = DispatcherView;

    open spec fn view(&self) -> DispatcherView {
        DispatcherView {
            records: self.records@.map_values(|r: ChangeRecord| r@),
            next: self.next as nat,
            phase: self.phase@,
        }
    }
}

/// A snapshot's projection, with its failure as a handler error.
pub open spec fn projected(s: Seq<(Seq<char>, AttrView)>) -> Result<Entity, HandlerError> {
    match project(s) {
        Ok(e) => Ok(e),
        Err(p) => Err(HandlerError::Projection(p)),
    }
}

/// What a modification needs: the new row's projection, then the old row's.
pub open spec fn modified(r: RecordView) -> Result<(Entity, Entity), HandlerError> {
    match projected(r.new_image) {
        Err(e) => Err(e),
        Ok(n) => match projected(r.old_image) {
            Err(e) => Err(e),
            Ok(o) => Ok((n, o)),
        },
    }
}

/// The first failure that a record meets before any outside call, if any.
pub open spec fn local_failure(r: RecordView) -> Option<HandlerError> {
    match classify(r.tag) {
        None => Some(HandlerError::UnknownEventName),
        Some(EventName::Insert) => match projected(r.new_image) {
            Err(e) => Some(e),
            Ok(_) => None,
        },
        Some(EventName::Modify) => match modified(r) {
            Err(e) => Some(e),
            Ok(_) => None,
        },
        Some(EventName::Remove) => match projected(r.old_image) {
            Err(e) => Some(e),
            Ok(_) => None,
        },
    }
}

pub open spec fn valid(d: DispatcherView) -> bool {
    &&& d.next <= d.records.len()
    &&& (d.phase is TokenNext || d.phase is AwaitingToken || d.phase is AwaitingUser) ==> d.next
        < d.records.len()
}

pub open spec fn with_phase(d: DispatcherView, next: nat, phase: PhaseView) -> DispatcherView {
    DispatcherView { records: d.records, next, phase }
}

/// Stop with a failure.
pub open spec fn fail(d: DispatcherView, e: HandlerError) -> (DispatcherView, ActionView) {
    (with_phase(d, d.next, PhaseView::Finished(Err(e))), ActionView::Finish(Err(e)))
}

/// Start on record `r`, the one at `d.next`.
pub open spec fn begin(d: DispatcherView, r: RecordView) -> (DispatcherView, ActionView) {
    match local_failure(r) {
        Some(e) => fail(d, e),
        None => match classify(r.tag) {
            Some(EventName::Insert) => {
                let m = projected(r.new_image)->Ok_0;
                (
                    with_phase(d, d.next, PhaseView::TokenNext(m.id)),
                    ActionView::Log(ReportView::Inserted(m)),
                )
            },
            Some(EventName::Modify) => {
                let p = modified(r)->Ok_0;
                (
                    with_phase(d, d.next + 1, PhaseView::Ready),
                    ActionView::Log(ReportView::Modified(p.0, p.1)),
                )
            },
            _ => {
                let m = projected(r.old_image)->Ok_0;
                (with_phase(d, d.next + 1, PhaseView::Ready), ActionView::Log(ReportView::Removed(m)))
            },
        },
    }
}

/// The dispatcher's next state and action on an event.
pub open spec fn transition(d: DispatcherView, ev: EventView) -> (DispatcherView, ActionView) {
    match d.phase {
        PhaseView::Finished(res) => (d, ActionView::Finish(res)),
        PhaseView::Ready => if !(ev is Proceed) {
            fail(d, HandlerError::OutOfSequence)
        } else if d.next >= d.records.len() {
            (with_phase(d, d.next, PhaseView::Finished(Ok(()))), ActionView::Finish(Ok(())))
        } else {
            begin(d, d.records[d.next as int])
        },
        PhaseView::TokenNext(login) => if ev is Proceed {
            (with_phase(d, d.next, PhaseView::AwaitingToken(login)), ActionView::AcquireToken)
        } else {
            fail(d, HandlerError::OutOfSequence)
        },
        PhaseView::AwaitingToken(login) => match ev {
            EventView::TokenAcquired => (
                with_phase(d, d.next, PhaseView::AwaitingUser),
                ActionView::LookupUser(login),
            ),
            EventView::CredentialsMissing => fail(d, HandlerError::MissingCredential),
            EventView::TokenFailed => fail(d, HandlerError::TokenExchangeFailed),
            _ => fail(d, HandlerError::OutOfSequence),
        },
        PhaseView::AwaitingUser => match ev {
            EventView::UserFound(id) => (
                with_phase(d, d.next + 1, PhaseView::Ready),
                ActionView::Log(ReportView::WentOnline(id)),
            ),
            EventView::UserMissing => fail(d, HandlerError::UserNotFound),
            EventView::LookupFailed => fail(d, HandlerError::LookupFailed),
            _ => fail(d, HandlerError::OutOfSequence),
        },
    }
}

fn project_image(s: &Snapshot) -> (r: Result<MyModel, HandlerError>)
    ensures
        match r {
            Ok(m) => projected(s@) == Ok::<Entity, HandlerError>(m@),
            Err(e) => projected(s@) == Err::<Entity, HandlerError>(e),
        },
{
    match s.project() {
        Ok(m) => Ok(m),
        Err(p) => Err(HandlerError::Projection(p)),
    }
}

/// Projects the new row of an inserted stream.
pub fn handle_insert(record: &ChangeRecord) -> (r: Result<MyModel, HandlerError>)
    ensures
        match r {
            Ok(m) => projected(record@.new_image) == Ok::<Entity, HandlerError>(m@),
            Err(e) => projected(record@.new_image) == Err::<Entity, HandlerError>(e),
        },
{
    project_image(&record.new_image)
}

/// Projects the new row, then the old row, of a modified stream.
pub fn handle_modify(record: &ChangeRecord) -> (r: Result<(MyModel, MyModel), HandlerError>)
    ensures
        match r {
            Ok(p) => modified(record@) == Ok::<(Entity, Entity), HandlerError>((p.0@, p.1@)),
            Err(e) => modified(record@) == Err::<(Entity, Entity), HandlerError>(e),
        },
{
    let new_item = project_image(&record.new_image)?;
    let old_item = project_image(&record.old_image)?;
    Ok((new_item, old_item))
}

/// Projects the old row of a removed stream.
pub fn handle_remove(record: &ChangeRecord) -> (r: Result<MyModel, HandlerError>)
    ensures
        match r {
            Ok(m) => projected(record@.old_image) == Ok::<Entity, HandlerError>(m@),
            Err(e) => projected(record@.old_image) == Err::<Entity, HandlerError>(e),
        },
{
    project_image(&record.old_image)
}

impl Dispatcher {
    /// The record index stays within the batch, and points at a record
    /// while that record's handling is under way.
    pub open spec fn wf(&self) -> bool {
        valid(self@)
    }

    /// A dispatcher at the start of a batch.
    pub fn new(records: Vec<ChangeRecord>) -> (r: Dispatcher)
        ensures
            r.wf(),
            r@ == (DispatcherView {
                records: records@.map_values(|r: ChangeRecord| r@),
                next: 0,
                phase: PhaseView::Ready,
            }),
    {
        Dispatcher { records, next: 0, phase: Phase::Ready }
    }

    fn stop(&mut self, e: HandlerError) -> (a: Action)
        requires
            old(self).wf(),
        ensures
            final(self).wf(),
            (final(self)@, a@) == fail(old(self)@, e),
    {
        self.phase = Phase::Finished(Err(e));
        Action::Finish(Err(e))
    }

    /// Takes the driver's event and gives the next action (see `transition`).
    pub fn step(&mut self, ev: Event) -> (a: Action)
        requires
            old(self).wf(),
        ensures
            final(self).wf(),
            (final(self)@, a@) == transition(old(self)@, ev@),
    {
        match &self.phase {
            Phase::Finished(res) => {
                return Action::Finish(*res);
            },
            Phase::TokenNext(login) => {
                if let Event::Proceed = ev {
                    let login = login.clone();
                    self.phase = Phase::AwaitingToken(login);
                    return Action::AcquireToken;
                }
                return self.stop(HandlerError::OutOfSequence);
            },
            Phase::AwaitingToken(login) => {
                let login = login.clone();
                return match ev {
                    Event::TokenAcquired => {
                        self.phase = Phase::AwaitingUser;
                        Action::LookupUser(login)
                    },
                    Event::CredentialsMissing => self.stop(HandlerError::MissingCredential),
                    Event::TokenFailed => self.stop(HandlerError::TokenExchangeFailed),
                    _ => self.stop(HandlerError::OutOfSequence),
                };
            },
            Phase::AwaitingUser => {
                return match ev {
                    Event::UserFound(id) => {
                        let n = self.records.len();
                        assert(self.next < n);
                        self.next = self.next + 1;
                        self.phase = Phase::Ready;
                        Action::Log(Report::WentOnline(id))
                    },
                    Event::UserMissing => self.stop(HandlerError::UserNotFound),
                    Event::LookupFailed => self.stop(HandlerError::LookupFailed),
                    _ => self.stop(HandlerError::OutOfSequence),
                };
            },
            Phase::Ready => {},
        }
        if !matches!(ev, Event::Proceed) {
            return self.stop(HandlerError::OutOfSequence);
        }
        if self.next >= self.records.len() {
            self.phase = Phase::Finished(Ok(()));
            return Action::Finish(Ok(()));
        }
        self.begin_record()
    }

    fn begin_record(&mut self) -> (a: Action)
        requires
            old(self).wf(),
            old(self).next < old(self).records@.len(),
            old(self).phase is Ready,
        ensures
            final(self).wf(),
            (final(self)@, a@) == begin(old(self)@, old(self)@.records[old(self).next as int]),
    {
        let ghost d = self@;
        let i = self.next;
        let n = self.records.len();
        assert(d.records[i as int] == self.records@[i as int]@);
        let record = &self.records[i];
        let kind = match EventName::from_str(record.event_name.as_str()) {
            Ok(k) => k,
            Err(()) => return self.stop(HandlerError::UnknownEventName),
        };
        match kind {
            EventName::Insert => match handle_insert(record) {
                Ok(m) => {
                    let login = m.stream_id.clone();
                    self.phase = Phase::TokenNext(login);
                    Action::Log(Report::Inserted(m))
                },
                Err(e) => self.stop(e),
            },
            EventName::Modify => match handle_modify(record) {
                Ok((n, o)) => {
                    self.next = i + 1;
                    Action::Log(Report::Modified(n, o))
                },
                Err(e) => self.stop(e),
            },
            EventName::Remove => match handle_remove(record) {
                Ok(m) => {
                    self.next = i + 1;
                    Action::Log(Report::Removed(m))
                },
                Err(e) => self.stop(e),
            },
        }
    }
}

/// The dispatcher at the start of a batch.
pub open spec fn start(records: Seq<RecordView>) -> DispatcherView {
    DispatcherView { records, next: 0, phase: PhaseView::Ready }
}

/// The actions that the dispatcher gives, in order, on a sequence of events.
pub open spec fn run(d: DispatcherView, evs: Seq<EventView>) -> Seq<ActionView>
    decreases evs.len(),
{
    if evs.len() == 0 {
        Seq::empty()
    } else {
        seq![transition(d, evs[0]).1] + run(transition(d, evs[0]).0, evs.drop_first())
    }
}

/// Every record before the current one was handled without a local failure,
/// as was the current one where an outside call for it is under way, and a
/// batch that finished well was handled to its end.
pub open spec fn handled_so_far(d: DispatcherView) -> bool {
    &&& valid(d)
    &&& forall|i: int| 0 <= i < d.next ==> (#[trigger] local_failure(d.records[i])) is None
    &&& (d.phase is TokenNext || d.phase is AwaitingToken || d.phase is AwaitingUser)
        ==> local_failure(d.records[d.next as int]) is None
    &&& d.phase == PhaseView::Finished(Ok(())) ==> d.next == d.records.len()
}

/// A step keeps the batch, moves to the next record or stays on the current
/// one, and moves on only past a record that met no local failure.
pub proof fn lemma_step_in_order(d: DispatcherView, ev: EventView)
    requires
        handled_so_far(d),
    ensures
        transition(d, ev).0.records == d.records,
        transition(d, ev).0.next == d.next || transition(d, ev).0.next == d.next + 1,
        transition(d, ev).0.next == d.next + 1 ==> d.next < d.records.len() && local_failure(
            d.records[d.next as int],
        ) is None,
        handled_so_far(transition(d, ev).0),
{
    let d1 = transition(d, ev).0;
    assert forall|i: int| 0 <= i < d1.next implies (#[trigger] local_failure(d1.records[i])) is None by {
        if i < d.next {
            assert(local_failure(d.records[i]) is None);
        }
    }
}

/// The length of a run is the number of events.
pub proof fn lemma_run_len(d: DispatcherView, evs: Seq<EventView>)
    ensures
        run(d, evs).len() == evs.len(),
    decreases evs.len(),
{
    if evs.len() > 0 {
        lemma_run_len(transition(d, evs[0]).0, evs.drop_first());
    }
}

proof fn lemma_never_succeeds_from(d: DispatcherView, evs: Seq<EventView>, k: int)
    requires
        handled_so_far(d),
        0 <= k < d.records.len(),
        local_failure(d.records[k]) is Some,
    ensures
        forall|j: int| 0 <= j < run(d, evs).len() ==> run(d, evs)[j] != ActionView::Finish(Ok(())),
    decreases evs.len(),
{
    lemma_run_len(d, evs);
    if evs.len() > 0 {
        let d1 = transition(d, evs[0]).0;
        lemma_step_in_order(d, evs[0]);
        lemma_never_succeeds_from(d1, evs.drop_first(), k);
        let rest = run(d1, evs.drop_first());
        assert(d.next <= k);
        assert(transition(d, evs[0]).1 != ActionView::Finish(Ok(())));
        assert forall|j: int| 0 <= j < run(d, evs).len() implies run(d, evs)[j] != ActionView::Finish(
            Ok(()),
        ) by {
            if j > 0 {
                assert(run(d, evs)[j] == rest[j - 1]);
            }
        }
    }
}

/// Where any record of a batch has an unknown tag or a snapshot that does not
/// project, the dispatcher never reports success, whatever the driver answers.
pub proof fn lemma_failed_record_never_succeeds(
    records: Seq<RecordView>,
    evs: Seq<EventView>,
    k: int,
)
    requires
        0 <= k < records.len(),
        local_failure(records[k]) is Some,
    ensures
        forall|j: int|
            0 <= j < run(start(records), evs).len() ==> run(start(records), evs)[j]
                != ActionView::Finish(Ok(())),
{
    lemma_never_succeeds_from(start(records), evs, k);
}

proof fn lemma_finished_stays(d: DispatcherView, evs: Seq<EventView>, r: Result<(), HandlerError>)
    requires
        d.phase == PhaseView::Finished(r),
    ensures
        forall|j: int| 0 <= j < run(d, evs).len() ==> run(d, evs)[j] == ActionView::Finish(r),
    decreases evs.len(),
{
    if evs.len() > 0 {
        lemma_finished_stays(d, evs.drop_first(), r);
        let rest = run(d, evs.drop_first());
        assert forall|j: int| 0 <= j < run(d, evs).len() implies run(d, evs)[j] == ActionView::Finish(
            r,
        ) by {
            if j > 0 {
                assert(run(d, evs)[j] == rest[j - 1]);
            }
        }
    }
}

/// Once the dispatcher reports an outcome, success or failure, every later
/// action reports that same outcome: a failure is never followed by success.
pub proof fn lemma_outcome_is_final(d: DispatcherView, evs: Seq<EventView>, i: int)
    requires
        0 <= i < run(d, evs).len(),
        run(d, evs)[i] is Finish,
    ensures
        forall|j: int| i <= j < run(d, evs).len() ==> run(d, evs)[j] == run(d, evs)[i],
    decreases evs.len(),
{
    lemma_run_len(d, evs);
    let d1 = transition(d, evs[0]).0;
    let rest = run(d1, evs.drop_first());
    if i == 0 {
        let r = transition(d, evs[0]).1->Finish_0;
        assert(d1.phase == PhaseView::Finished(r));
        lemma_finished_stays(d1, evs.drop_first(), r);
    } else {
        assert(run(d, evs)[i] == rest[i - 1]);
        lemma_outcome_is_final(d1, evs.drop_first(), i - 1);
    }
    assert forall|j: int| i <= j < run(d, evs).len() implies run(d, evs)[j] == run(d, evs)[i] by {
        if j > 0 {
            assert(run(d, evs)[j] == rest[j - 1]);
        }
    }
}

/// A batch that the dispatcher reports as a success had every record handled.
pub proof fn lemma_success_handles_all(records: Seq<RecordView>, evs: Seq<EventView>)
    requires
        run(start(records), evs).contains(ActionView::Finish(Ok(()))),
    ensures
        forall|i: int| 0 <= i < records.len() ==> (#[trigger] local_failure(records[i])) is None,
{
    assert forall|i: int| 0 <= i < records.len() implies (#[trigger] local_failure(records[i])) is None by {
        if local_failure(records[i]) is Some {
            lemma_failed_record_never_succeeds(records, evs, i);
        }
    }
}

/// The state after a sequence of events.
pub open spec fn after(d: DispatcherView, evs: Seq<EventView>) -> DispatcherView
    decreases evs.len(),
{
    if evs.len() == 0 {
        d
    } else {
        after(transition(d, evs[0]).0, evs.drop_first())
    }
}

/// A driver's answers while one record is handled and every outside call
/// succeeds, the lookup finding the user with backend identifier `id`.
pub open spec fn answers(r: RecordView, id: Seq<char>) -> Seq<EventView> {
    if classify(r.tag) == Some(EventName::Insert) {
        seq![
            EventView::Proceed,
            EventView::Proceed,
            EventView::TokenAcquired,
            EventView::UserFound(id),
        ]
    } else {
        seq![EventView::Proceed]
    }
}

/// The answers for the records from index `i` on, then the closing `Proceed`.
pub open spec fn answers_from(records: Seq<RecordView>, ids: Seq<Seq<char>>, i: int) -> Seq<
    EventView,
>
    decreases records.len() - i,
{
    if i < 0 || i >= records.len() {
        seq![EventView::Proceed]
    } else {
        answers(records[i], ids[i]) + answers_from(records, ids, i + 1)
    }
}

proof fn lemma_run_concat(d: DispatcherView, a: Seq<EventView>, b: Seq<EventView>)
    ensures
        run(d, a + b) == run(d, a) + run(after(d, a), b),
        after(d, a + b) == after(after(d, a), b),
    decreases a.len(),
{
    if a.len() == 0 {
        assert(a + b =~= b);
        assert(run(d, a) + run(d, b) =~= run(d, b));
    } else {
        let d1 = transition(d, a[0]).0;
        assert((a + b)[0] == a[0]);
        assert((a + b).drop_first() =~= a.drop_first() + b);
        lemma_run_concat(d1, a.drop_first(), b);
        assert(run(d, a + b) =~= run(d, a) + run(after(d, a), b));
    }
}

proof fn lemma_after_one(d: DispatcherView, e: EventView, rest: Seq<EventView>)
    ensures
        after(d, seq![e] + rest) == after(transition(d, e).0, rest),
{
    assert((seq![e] + rest)[0] == e);
    assert((seq![e] + rest).drop_first() =~= rest);
}

/// Handling one record that meets no failure moves to the next record.
proof fn lemma_record_handled(d: DispatcherView, id: Seq<char>)
    requires
        valid(d),
        d.phase is Ready,
        d.next < d.records.len(),
        local_failure(d.records[d.next as int]) is None,
    ensures
        after(d, answers(d.records[d.next as int], id)) == with_phase(
            d,
            d.next + 1,
            PhaseView::Ready,
        ),
{
    let r = d.records[d.next as int];
    let evs = answers(r, id);
    if classify(r.tag) == Some(EventName::Insert) {
        let d1 = transition(d, EventView::Proceed).0;
        let d2 = transition(d1, EventView::Proceed).0;
        let d3 = transition(d2, EventView::TokenAcquired).0;
        let d4 = transition(d3, EventView::UserFound(id)).0;
        let s1 = seq![EventView::UserFound(id)];
        let s2 = seq![EventView::TokenAcquired] + s1;
        let s3 = seq![EventView::Proceed] + s2;
        assert(evs =~= seq![EventView::Proceed] + s3);
        lemma_after_one(d, EventView::Proceed, s3);
        lemma_after_one(d1, EventView::Proceed, s2);
        lemma_after_one(d2, EventView::TokenAcquired, s1);
        assert(s1 =~= seq![EventView::UserFound(id)] + Seq::empty());
        lemma_after_one(d3, EventView::UserFound(id), Seq::empty());
        assert(after(d4, Seq::empty()) == d4);
        assert(after(d, evs) == d4);
    } else {
        assert(evs =~= seq![EventView::Proceed] + Seq::empty());
        lemma_after_one(d, EventView::Proceed, Seq::empty());
        let d1 = transition(d, EventView::Proceed).0;
        assert(after(d1, Seq::empty()) == d1);
        assert(d1 == with_phase(d, d.next + 1, PhaseView::Ready));
    }
}

proof fn lemma_succeeds_from(d: DispatcherView, ids: Seq<Seq<char>>)
    requires
        valid(d),
        d.phase is Ready,
        ids.len() == d.records.len(),
        forall|j: int| d.next <= j < d.records.len() ==> (#[trigger] local_failure(d.records[j])) is None,
    ensures
        run(d, answers_from(d.records, ids, d.next as int)).len() > 0,
        run(d, answers_from(d.records, ids, d.next as int)).last() == ActionView::Finish(Ok(())),
    decreases d.records.len() - d.next,
{
    let evs = answers_from(d.records, ids, d.next as int);
    lemma_run_len(d, evs);
    if d.next >= d.records.len() {
        assert(evs.drop_first() =~= Seq::<EventView>::empty());
        assert(run(d, evs) =~= seq![ActionView::Finish(Ok(()))]);
    } else {
        let i = d.next as int;
        let a = answers(d.records[i], ids[i]);
        let rest = answers_from(d.records, ids, i + 1);
        assert(evs == a + rest);
        lemma_record_handled(d, ids[i]);
        lemma_run_concat(d, a, rest);
        let d1 = after(d, a);
        lemma_succeeds_from(d1, ids);
        lemma_run_len(d1, rest);
        assert(run(d, evs).last() == run(d1, rest).last());
    }
}

/// A batch whose records all have a known tag and the snapshots that their
/// kind needs, where every outside call succeeds, is reported as a success
/// once each record has been handled in turn.
pub proof fn lemma_clean_batch_succeeds(records: Seq<RecordView>, ids: Seq<Seq<char>>)
    requires
        ids.len() == records.len(),
        forall|j: int| 0 <= j < records.len() ==> (#[trigger] local_failure(records[j])) is None,
    ensures
        run(start(records), answers_from(records, ids, 0)).len() > 0,
        run(start(records), answers_from(records, ids, 0)).last() == ActionView::Finish(Ok(())),
{
    lemma_succeeds_from(start(records), ids);
}

} // verus!
