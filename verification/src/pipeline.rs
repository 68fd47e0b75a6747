//! The course of one command, as a state machine: the caller does the
//! outside work that an action asks for and hands back what happened.

use crate::decode::{decode_response, decode_response_model, reports};
use crate::error::{message_text, optional_text, stage_of, Error, ErrorKind};
use crate::json::Json;
use crate::query::{
    endpoint_text, info_pairs, info_query, leading_pairs, search_pairs, search_query,
    url_with_params, RequestKind,
};
use crate::rank::{is_ranking_of, rank};
use crate::record::{models, texts, PackageRecord};
use vstd::prelude::*;

verus! {

/// What the user asked for, with its arguments.
#[derive(Debug)]
pub enum Request {
    /// Find the packages that match a term, most voted first.
    Search(String),
    /// Show the packages with the given names.
    Info(Vec<String>),
    /// Fetch and unpack the source archives of the packages with the given
    /// names.
    Download(Vec<String>),
}

/// The three commands.
#[derive(Clone, Copy, Debug, PartialEq, Eq, Structural)]
pub enum Command {
    Search,
    Info,
    Download,
}

/// Where a command stands.
#[derive(Clone, Copy, Debug, PartialEq, Eq, Structural)]
pub enum Phase {
    /// Nothing has been done yet.
    Idle,
    /// A search or a lookup waits for the service's answer.
    Querying,
    /// The results of a search are about to be ranked.
    Ranking,
    /// The results are being shown.
    Rendering,
    /// A download waits for the records of its packages.
    Resolving,
    /// The packages of a download are being fetched and unpacked, each on
    /// its own.
    FanOut,
    /// Every package of a download has succeeded or failed.
    Joined,
    /// The command is over.
    Done,
    /// The command was given up: the query could not be built, sent or
    /// decoded.
    Failed,
}

/// How far one package of a download is.
#[derive(Debug)]
pub enum Progress {
    Pending,
    Succeeded,
    Failed(Error),
}

/// What has happened outside.
#[derive(Debug)]
pub enum Event {
    /// The caller is ready to begin.
    Start,
    /// The query was answered with a document, or could not be answered.
    Answered(Result<Json, Error>),
    /// The caller has nothing to report and asks to go on.
    Proceed,
    /// The results have been shown.
    Rendered,
    /// The package at the given place of the result set has been fetched
    /// and unpacked, or has failed.
    Finished { package: usize, outcome: Result<(), Error> },
    /// The failures of a download have been shown.
    Reported,
}

/// What the caller is to do next.
#[derive(Debug, PartialEq, Eq)]
pub enum Action {
    /// Fetch this URL and hand back the answer.
    SendQuery(String),
    /// Hand back `Proceed`.
    Proceed,
    /// Show the results and hand back `Rendered`.
    Render,
    /// Fetch and unpack the archive of every result, side by side, and hand
    /// back `Finished` for each as it ends.
    Fetch,
    /// Wait for the next event; this one changed nothing that asks for
    /// work.
    Await,
    /// Show the failures and hand back `Reported`.
    Report,
    /// Leave, with success or without.
    Finish { success: bool },
}

/// One package of a download that failed, and the message for it.
#[derive(Debug, PartialEq, Eq)]
pub struct PackageFailure {
    pub package: String,
    pub message: String,
}

/// The state of a command.
pub struct Pipeline {
    request: Request,
    phase: Phase,
    results: Vec<PackageRecord>,
    progress: Vec<Progress>,
    failure: Option<Error>,
}

/// The mathematical content of a [`Pipeline`].
pub ghost struct PipelineModel {
    pub request: Request,
    pub phase: Phase,
    pub results: Seq<PackageRecord>,
    pub progress: Seq<Progress>,
    pub failure: Option<Error>,
}

/// The command that a request belongs to.
pub open spec fn command_of(request: Request) -> Command {
    match request {
        Request::Search(_) => Command::Search,
        Request::Info(_) => Command::Info,
        Request::Download(_) => Command::Download,
    }
}

/// The parameters of the query that a request begins with. A download
/// begins with the lookup of its packages.
pub open spec fn request_pairs(request: Request) -> Seq<(Seq<char>, Seq<char>)> {
    match request {
        Request::Search(term) => leading_pairs(RequestKind::Search) + search_pairs(term@),
        Request::Info(names) => leading_pairs(RequestKind::Info) + info_pairs(texts(names@)),
        Request::Download(names) => leading_pairs(RequestKind::Info) + info_pairs(texts(names@)),
    }
}

/// The phase in which a command waits for the answer to its query.
pub open spec fn waiting_phase(command: Command) -> Phase {
    match command {
        Command::Search => Phase::Querying,
        Command::Info => Phase::Querying,
        Command::Download => Phase::Resolving,
    }
}

/// The phases that a command goes through, in order. From each of them
/// but the last a failure may lead to `Failed` instead.
pub open spec fn course(command: Command) -> Seq<Phase> {
    match command {
        Command::Search => seq![
            Phase::Idle,
            Phase::Querying,
            Phase::Ranking,
            Phase::Rendering,
            Phase::Done,
        ],
        Command::Info => seq![Phase::Idle, Phase::Querying, Phase::Rendering, Phase::Done],
        Command::Download => seq![
            Phase::Idle,
            Phase::Resolving,
            Phase::FanOut,
            Phase::Joined,
            Phase::Done,
        ],
    }
}

/// Whether no package is pending any more.
pub open spec fn all_finished(progress: Seq<Progress>) -> bool {
    forall|i: int| 0 <= i < progress.len() ==> !(#[trigger] progress[i] is Pending)
}

/// Whether no package has failed.
pub open spec fn none_failed(progress: Seq<Progress>) -> bool {
    forall|i: int| 0 <= i < progress.len() ==> !(#[trigger] progress[i] is Failed)
}

/// How far a package is once it has ended with `outcome`.
pub open spec fn progress_of(outcome: Result<(), Error>) -> Progress {
    match outcome {
        Ok(_) => Progress::Succeeded,
        Err(error) => Progress::Failed(error),
    }
}

/// What holds of a pipeline in every state: its phase is one of its
/// command's course or `Failed`; a failure is kept exactly in `Failed`;
/// there are no results before the query is answered; the packages of a
/// download are tracked one by one from the fan-out on, with one of them
/// pending during the fan-out and none after it.
pub open spec fn valid(state: PipelineModel) -> bool {
    let command = command_of(state.request);
    &&& state.phase == Phase::Failed || course(command).contains(state.phase)
    &&& state.failure is Some <==> state.phase == Phase::Failed
    &&& state.phase == Phase::Idle || state.phase == waiting_phase(command) || state.phase
        == Phase::Failed ==> state.results.len() == 0
    &&& if command == Command::Download && (state.phase == Phase::FanOut || state.phase
        == Phase::Joined || state.phase == Phase::Done) {
        state.progress.len() == state.results.len()
    } else {
        state.progress.len() == 0
    }
    &&& state.phase == Phase::FanOut ==> !all_finished(state.progress)
    &&& state.phase == Phase::Joined || state.phase == Phase::Done ==> all_finished(
        state.progress,
    )
}

/// The same state in another phase.
pub open spec fn moved_to(state: PipelineModel, phase: Phase) -> PipelineModel {
    PipelineModel {
        request: state.request,
        phase,
        results: state.results,
        progress: state.progress,
        failure: state.failure,
    }
}

/// Whether `after` is `before` given up because of `error`.
pub open spec fn gave_up(before: PipelineModel, after: PipelineModel, error: Error) -> bool {
    after == PipelineModel {
        request: before.request,
        phase: Phase::Failed,
        results: Seq::empty(),
        progress: Seq::empty(),
        failure: Some(error),
    }
}

/// The step from `Idle`: the query is built and is to be sent. Where it
/// cannot be built, the command is given up with a failure of kind `Url`.
pub open spec fn begins(before: PipelineModel, after: PipelineModel, action: Action) -> bool {
    match url_with_params(endpoint_text(), request_pairs(before.request)) {
        Some(text) => {
            &&& after == moved_to(before, waiting_phase(command_of(before.request)))
            &&& action matches Action::SendQuery(url)
            &&& url@ == text
        },
        None => {
            &&& after.failure matches Some(error)
            &&& error.kind == ErrorKind::Url
            &&& error.field is None
            &&& gave_up(before, after, error)
            &&& action == (Action::Finish { success: false })
        },
    }
}

/// The step on the service's answer. A failure to get an answer, or an
/// answer that does not decode, gives the command up. Else the decoded
/// records become the results, in the order of the answer: a search goes on
/// to rank them, a lookup to show them, and a download to fetch them, or
/// straight to the end of the fan-out where there are none.
pub open spec fn answered(
    before: PipelineModel,
    answer: Result<Json, Error>,
    after: PipelineModel,
    action: Action,
) -> bool {
    match answer {
        Err(error) => gave_up(before, after, error) && action == (Action::Finish {
            success: false,
        }),
        Ok(document) => match decode_response_model(document@) {
            Err(fault) => {
                &&& after.failure matches Some(error)
                &&& reports(error, fault)
                &&& gave_up(before, after, error)
                &&& action == (Action::Finish { success: false })
            },
            Ok(records) => {
                &&& after.request == before.request
                &&& after.failure is None
                &&& models(after.results) == records
                &&& match command_of(before.request) {
                    Command::Search => {
                        &&& after.phase == Phase::Ranking
                        &&& after.progress.len() == 0
                        &&& action == Action::Proceed
                    },
                    Command::Info => {
                        &&& after.phase == Phase::Rendering
                        &&& after.progress.len() == 0
                        &&& action == Action::Render
                    },
                    Command::Download => {
                        &&& after.progress.len() == records.len()
                        &&& forall|i: int|
                            0 <= i < records.len() ==> #[trigger] after.progress[i] is Pending
                        &&& if records.len() == 0 {
                            after.phase == Phase::Joined && action == Action::Report
                        } else {
                            after.phase == Phase::FanOut && action == Action::Fetch
                        }
                    },
                }
            },
        },
    }
}

/// The step on the end of one package of a download. The outcome is
/// written down for that package and for no other; once no package is
/// pending, the download is joined and its failures are to be shown. An
/// outcome for a package that is not pending, or that there is not,
/// changes nothing.
pub open spec fn finished(
    before: PipelineModel,
    package: usize,
    outcome: Result<(), Error>,
    after: PipelineModel,
    action: Action,
) -> bool {
    if package < before.progress.len() && before.progress[package as int] is Pending {
        let progress = before.progress.update(package as int, progress_of(outcome));
        &&& after.request == before.request
        &&& after.results == before.results
        &&& after.failure == before.failure
        &&& after.progress == progress
        &&& if all_finished(progress) {
            after.phase == Phase::Joined && action == Action::Report
        } else {
            after.phase == Phase::FanOut && action == Action::Await
        }
    } else {
        after == before && action == Action::Await
    }
}

/// Whether the step from `before` on `event` leads to `after` and asks for
/// `action`. An event that does not belong to the phase changes nothing;
/// in `Done` and `Failed` nothing changes any more.
pub open spec fn follows(
    before: PipelineModel,
    event: Event,
    after: PipelineModel,
    action: Action,
) -> bool {
    match (before.phase, event) {
        (Phase::Idle, Event::Start) => begins(before, after, action),
        (Phase::Querying, Event::Answered(answer)) => answered(before, answer, after, action),
        (Phase::Resolving, Event::Answered(answer)) => answered(before, answer, after, action),
        (Phase::Ranking, Event::Proceed) => {
            &&& after.request == before.request
            &&& after.phase == Phase::Rendering
            &&& is_ranking_of(after.results, before.results)
            &&& after.results.to_multiset() == before.results.to_multiset()
            &&& after.progress == before.progress
            &&& after.failure == before.failure
            &&& action == Action::Render
        },
        (Phase::Rendering, Event::Rendered) => {
            &&& after == moved_to(before, Phase::Done)
            &&& action == (Action::Finish { success: true })
        },
        (Phase::FanOut, Event::Finished { package, outcome }) => finished(
            before,
            package,
            outcome,
            after,
            action,
        ),
        (Phase::Joined, Event::Reported) => {
            &&& after == moved_to(before, Phase::Done)
            &&& action == (Action::Finish { success: none_failed(before.progress) })
        },
        (Phase::Done, _) => {
            &&& after == before
            &&& action == (Action::Finish { success: none_failed(before.progress) })
        },
        (Phase::Failed, _) => after == before && action == (Action::Finish { success: false }),
        (_, _) => after == before && action == Action::Await,
    }
}

/// The failures of a download, package by package in the order of the
/// result set: for each failed package its name and the message for its
/// failure.
pub open spec fn failure_texts(results: Seq<PackageRecord>, progress: Seq<Progress>) -> Seq<
    (Seq<char>, Seq<char>),
>
    decreases progress.len(),
{
    if progress.len() == 0 || results.len() != progress.len() {
        Seq::empty()
    } else {
        let before = failure_texts(results.drop_last(), progress.drop_last());
        match progress.last() {
            Progress::Failed(error) => before.push(
                (
                    results.last().name@,
                    message_text(
                        stage_of(error.kind),
                        Some(results.last().name@),
                        optional_text(error.field),
                        error.cause@,
                    ),
                ),
            ),
            _ => before,
        }
    }
}

/// A list of failures as pairs of texts.
pub open spec fn failure_pairs(failures: Seq<PackageFailure>) -> Seq<(Seq<char>, Seq<char>)> {
    Seq::new(failures.len(), |i: int| (failures[i].package@, failures[i].message@))
}

impl View for Pipeline {
    type V = PipelineModel;

    closed spec fn view(&self) -> PipelineModel {
        PipelineModel {
            request: self.request,
            phase: self.phase,
            results: self.results@,
            progress: self.progress@,
            failure: self.failure,
        }
    }
}

impl Request {
    /// The command that this request belongs to.
    pub fn command(&self) -> (command: Command)
        ensures
            command == command_of(*self),
    {
        match self {
            Request::Search(_) => Command::Search,
            Request::Info(_) => Command::Info,
            Request::Download(_) => Command::Download,
        }
    }

    /// The URL of the query that this request begins with.
    pub fn query(&self) -> (outcome: Result<String, Error>)
        ensures
            match url_with_params(endpoint_text(), request_pairs(*self)) {
                Some(text) => outcome is Ok && outcome->Ok_0@ == text,
                None => outcome is Err && outcome->Err_0.kind == ErrorKind::Url
                    && outcome->Err_0.field is None,
            },
    {
        match self {
            Request::Search(term) => search_query(term.as_str()),
            Request::Info(names) => info_query(names),
            Request::Download(names) => info_query(names),
        }
    }
}

/// Tells whether no package is pending any more.
fn none_pending(progress: &Vec<Progress>) -> (none: bool)
    ensures
        none == all_finished(progress@),
{
    let mut i: usize = 0;
    while i < progress.len()
        invariant
            i <= progress.len(),
            forall|k: int| 0 <= k < i ==> !(#[trigger] progress@[k] is Pending),
        decreases progress.len() - i,
    {
        match &progress[i] {
            Progress::Pending => {
                return false;
            },
            _ => {},
        }
        i += 1;
    }
    true
}

/// Tells whether no package has failed.
fn no_failure(progress: &Vec<Progress>) -> (none: bool)
    ensures
        none == none_failed(progress@),
{
    let mut i: usize = 0;
    while i < progress.len()
        invariant
            i <= progress.len(),
            forall|k: int| 0 <= k < i ==> !(#[trigger] progress@[k] is Failed),
        decreases progress.len() - i,
    {
        match &progress[i] {
            Progress::Failed(_) => {
                return false;
            },
            _ => {},
        }
        i += 1;
    }
    true
}

/// As many pending packages as asked for.
fn all_pending(count: usize) -> (progress: Vec<Progress>)
    ensures
        progress@.len() == count,
        forall|i: int| 0 <= i < count ==> #[trigger] progress@[i] is Pending,
{
    let mut progress: Vec<Progress> = Vec::new();
    let mut i: usize = 0;
    while i < count
        invariant
            i <= count,
            progress@.len() == i,
            forall|k: int| 0 <= k < i ==> #[trigger] progress@[k] is Pending,
        decreases count - i,
    {
        progress.push(Progress::Pending);
        i += 1;
    }
    progress
}

impl Pipeline {
    #[verifier::type_invariant]
    spec fn well_formed(self) -> bool {
        valid(self@)
    }

    /// A command that has not begun.
    pub fn new(request: Request) -> (pipeline: Pipeline)
        ensures
            pipeline@ == (PipelineModel {
                request,
                phase: Phase::Idle,
                results: Seq::empty(),
                progress: Seq::empty(),
                failure: None,
            }),
            valid(pipeline@),
    {
        proof {
            let command = command_of(request);
            assert(course(command)[0] == Phase::Idle);
        }
        Pipeline {
            request,
            phase: Phase::Idle,
            results: Vec::new(),
            progress: Vec::new(),
            failure: None,
        }
    }

    /// The command.
    pub fn command(&self) -> (command: Command)
        ensures
            command == command_of(self@.request),
    {
        self.request.command()
    }

    /// Where the command stands. Whatever the phase, the state is valid.
    pub fn phase(&self) -> (phase: Phase)
        ensures
            phase == self@.phase,
            valid(self@),
    {
        proof {
            use_type_invariant(self);
        }
        self.phase
    }

    /// The results: as the service sent them, and from `Rendering` on in a
    /// search as they were ranked.
    pub fn results(&self) -> (results: &Vec<PackageRecord>)
        ensures
            results@ == self@.results,
    {
        &self.results
    }

    /// The failure for which the command was given up.
    pub fn failure(&self) -> (failure: &Option<Error>)
        ensures
            *failure == self@.failure,
    {
        &self.failure
    }

    /// Tells whether the command is over.
    pub fn is_over(&self) -> (over: bool)
        ensures
            over == (self@.phase == Phase::Done || self@.phase == Phase::Failed),
    {
        match self.phase {
            Phase::Done => true,
            Phase::Failed => true,
            _ => false,
        }
    }

    /// Tells whether the command has come to a good end: it is done, and
    /// in a download no package has failed.
    pub fn succeeded(&self) -> (success: bool)
        ensures
            success == (self@.phase == Phase::Done && none_failed(self@.progress)),
    {
        match self.phase {
            Phase::Done => no_failure(&self.progress),
            _ => false,
        }
    }

    /// The failures of a download: for each package that failed, in the
    /// order of the result set, its name and the message for its failure.
    pub fn failures(&self) -> (failures: Vec<PackageFailure>)
        ensures
            failure_pairs(failures@) == failure_texts(self@.results, self@.progress),
    {
        let mut failures: Vec<PackageFailure> = Vec::new();
        if self.results.len() != self.progress.len() {
            assert(failure_pairs(failures@) =~= Seq::empty());
            return failures;
        }
        let mut i: usize = 0;
        proof {
            assert(self.results@.take(0) =~= Seq::empty());
            assert(self.progress@.take(0) =~= Seq::empty());
            assert(failure_pairs(failures@) =~= Seq::empty());
        }
        while i < self.progress.len()
            invariant
                i <= self.progress.len(),
                self.results.len() == self.progress.len(),
                failure_pairs(failures@) == failure_texts(
                    self.results@.take(i as int),
                    self.progress@.take(i as int),
                ),
            decreases self.progress.len() - i,
        {
            let ghost before = failure_pairs(failures@);
            proof {
                assert(self.results@.take(i + 1).drop_last() =~= self.results@.take(i as int));
                assert(self.progress@.take(i + 1).drop_last() =~= self.progress@.take(i as int));
            }
            match &self.progress[i] {
                Progress::Failed(error) => {
                    let name = self.results[i].name.clone();
                    let message = error.message(Some(name.as_str()));
                    failures.push(PackageFailure { package: name, message });
                    assert(failure_pairs(failures@) =~= before.push(
                        (
                            self.results@[i as int].name@,
                            message_text(
                                stage_of(error.kind),
                                Some(self.results@[i as int].name@),
                                optional_text(error.field),
                                error.cause@,
                            ),
                        ),
                    ));
                },
                _ => {},
            }
            i += 1;
        }
        proof {
            assert(self.results@.take(i as int) =~= self.results@);
            assert(self.progress@.take(i as int) =~= self.progress@);
        }
        failures
    }

    /// Gives the command up because of `error`.
    fn give_up(self, error: Error) -> (next: (Pipeline, Action))
        ensures
            gave_up(self@, next.0@, error),
            next.1 == (Action::Finish { success: false }),
    {
        (
            Pipeline {
                request: self.request,
                phase: Phase::Failed,
                results: Vec::new(),
                progress: Vec::new(),
                failure: Some(error),
            },
            Action::Finish { success: false },
        )
    }

    /// Takes one step: what happened outside is taken into account, and
    /// the caller is told what to do next.
    pub fn step(self, event: Event) -> (next: (Pipeline, Action))
        ensures
            follows(self@, event, next.0@, next.1),
            valid(next.0@),
    {
        proof {
            use_type_invariant(&self);
        }
        let next = match self.phase {
            Phase::Idle => match event {
                Event::Start => self.begin(),
                _ => (self, Action::Await),
            },
            Phase::Querying => match event {
                Event::Answered(answer) => self.take_answer(answer),
                _ => (self, Action::Await),
            },
            Phase::Resolving => match event {
                Event::Answered(answer) => self.take_answer(answer),
                _ => (self, Action::Await),
            },
            Phase::Ranking => match event {
                Event::Proceed => {
                    let ranked = rank(self.results);
                    (
                        Pipeline {
                            request: self.request,
                            phase: Phase::Rendering,
                            results: ranked,
                            progress: self.progress,
                            failure: self.failure,
                        },
                        Action::Render,
                    )
                },
                _ => (self, Action::Await),
            },
            Phase::Rendering => match event {
                Event::Rendered => {
                    proof {
                        let command = command_of(self.request);
                        assert(course(command).last() == Phase::Done);
                    }
                    (
                        Pipeline {
                            request: self.request,
                            phase: Phase::Done,
                            results: self.results,
                            progress: self.progress,
                            failure: self.failure,
                        },
                        Action::Finish { success: true },
                    )
                },
                _ => (self, Action::Await),
            },
            Phase::FanOut => match event {
                Event::Finished { package, outcome } => self.take_outcome(package, outcome),
                _ => (self, Action::Await),
            },
            Phase::Joined => match event {
                Event::Reported => {
                    let success = no_failure(&self.progress);
                    proof {
                        let command = command_of(self.request);
                        assert(course(command).last() == Phase::Done);
                    }
                    (
                        Pipeline {
                            request: self.request,
                            phase: Phase::Done,
                            results: self.results,
                            progress: self.progress,
                            failure: self.failure,
                        },
                        Action::Finish { success },
                    )
                },
                _ => (self, Action::Await),
            },
            Phase::Done => {
                let success = no_failure(&self.progress);
                (self, Action::Finish { success })
            },
            Phase::Failed => (self, Action::Finish { success: false }),
        };
        proof {
            use_type_invariant(&next.0);
        }
        next
    }

    /// The step from `Idle`.
    fn begin(self) -> (next: (Pipeline, Action))
        requires
            self@.phase == Phase::Idle,
        ensures
            begins(self@, next.0@, next.1),
    {
        proof {
            use_type_invariant(&self);
        }
        match self.request.query() {
            Ok(url) => {
                let phase = match self.request.command() {
                    Command::Search => Phase::Querying,
                    Command::Info => Phase::Querying,
                    Command::Download => Phase::Resolving,
                };
                proof {
                    let command = command_of(self.request);
                    assert(course(command)[1] == phase);
                }
                (
                    Pipeline {
                        request: self.request,
                        phase,
                        results: self.results,
                        progress: self.progress,
                        failure: self.failure,
                    },
                    Action::SendQuery(url),
                )
            },
            Err(error) => self.give_up(error),
        }
    }

    /// The step on the service's answer.
    fn take_answer(self, answer: Result<Json, Error>) -> (next: (Pipeline, Action))
        requires
            self@.phase == waiting_phase(command_of(self@.request)),
        ensures
            answered(self@, answer, next.0@, next.1),
    {
        proof {
            use_type_invariant(&self);
        }
        let document = match answer {
            Ok(document) => document,
            Err(error) => {
                return self.give_up(error);
            },
        };
        let records = match decode_response(&document) {
            Ok(records) => records,
            Err(error) => {
                return self.give_up(error);
            },
        };
        let ghost command = command_of(self.request);
        match self.request.command() {
            Command::Search => {
                proof {
                    assert(course(command)[2] == Phase::Ranking);
                }
                (
                    Pipeline {
                        request: self.request,
                        phase: Phase::Ranking,
                        results: records,
                        progress: Vec::new(),
                        failure: None,
                    },
                    Action::Proceed,
                )
            },
            Command::Info => {
                proof {
                    assert(course(command)[2] == Phase::Rendering);
                }
                (
                    Pipeline {
                        request: self.request,
                        phase: Phase::Rendering,
                        results: records,
                        progress: Vec::new(),
                        failure: None,
                    },
                    Action::Render,
                )
            },
            Command::Download => {
                let progress = all_pending(records.len());
                if records.len() == 0 {
                    proof {
                        assert(course(command)[3] == Phase::Joined);
                    }
                    (
                        Pipeline {
                            request: self.request,
                            phase: Phase::Joined,
                            results: records,
                            progress,
                            failure: None,
                        },
                        Action::Report,
                    )
                } else {
                    proof {
                        assert(course(command)[2] == Phase::FanOut);
                        assert(progress@[0] is Pending);
                    }
                    (
                        Pipeline {
                            request: self.request,
                            phase: Phase::FanOut,
                            results: records,
                            progress,
                            failure: None,
                        },
                        Action::Fetch,
                    )
                }
            },
        }
    }

    /// The step on the end of one package.
    fn take_outcome(self, package: usize, outcome: Result<(), Error>) -> (next: (
        Pipeline,
        Action,
    ))
        requires
            self@.phase == Phase::FanOut,
        ensures
            finished(self@, package, outcome, next.0@, next.1),
    {
        proof {
            use_type_invariant(&self);
        }
        if package >= self.progress.len() {
            return (self, Action::Await);
        }
        match &self.progress[package] {
            Progress::Pending => {},
            _ => {
                return (self, Action::Await);
            },
        }
        let mut progress = self.progress;
        progress.set(
            package,
            match outcome {
                Ok(_) => Progress::Succeeded,
                Err(error) => Progress::Failed(error),
            },
        );
        let ghost command = command_of(self.request);
        if none_pending(&progress) {
            proof {
                assert(course(command)[3] == Phase::Joined);
            }
            (
                Pipeline {
                    request: self.request,
                    phase: Phase::Joined,
                    results: self.results,
                    progress,
                    failure: self.failure,
                },
                Action::Report,
            )
        } else {
            (
                Pipeline {
                    request: self.request,
                    phase: Phase::FanOut,
                    results: self.results,
                    progress,
                    failure: self.failure,
                },
                Action::Await,
            )
        }
    }
}

} // verus!
