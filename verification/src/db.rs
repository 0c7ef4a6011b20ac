//! The course of a maintenance run.
//!
//! A run never talks to the database itself. It says what is to be done next,
//! a catalog query or a maintenance statement, and is told how that went; from
//! this it decides what comes next and what goes to the log. Whoever drives
//! the run performs each action and hands back the event.
use crate::catalog::{catalog_query, list_objects, listed, query_text};
use crate::configuration::{ExcludedSchemas, Settings, SettingsView};
use crate::row::{CatalogRow, RowView};
use crate::target::{statement_text, Target, TargetKind, TargetView};
use vstd::prelude::*;

verus! {

/// How the last action went.
pub enum Event {
    /// The catalog query returned these rows.
    Rows(Vec<CatalogRow>),
    /// The catalog query failed, with this message from the database.
    QueryFailed(String),
    /// The maintenance statement succeeded.
    Succeeded,
    /// The maintenance statement failed, with this message from the database.
    Failed(String),
}

/// An event as plain mathematical values.
pub enum EventView {
    Rows(Seq<RowView>),
    QueryFailed(Seq<char>),
    Succeeded,
    Failed(Seq<char>),
}

impl View for Event {
    type V = EventView;

    open spec fn view(&self) -> EventView {
        match self {
            Event::Rows(rows) => EventView::Rows(rows.deep_view()),
            Event::QueryFailed(message) => EventView::QueryFailed(message@),
            Event::Succeeded => EventView::Succeeded,
            Event::Failed(message) => EventView::Failed(message@),
        }
    }
}

/// What is to be done next.
pub enum Action {
    /// Run this catalog query and answer with its rows or its failure.
    Query(String),
    /// Run this maintenance statement and answer with its success or its
    /// failure.
    Execute(String),
    /// Nothing is left to do.
    Finish,
}

/// An action as plain mathematical values.
pub enum ActionView {
    Query(Seq<char>),
    Execute(Seq<char>),
    Finish,
}

impl View for Action {
    type V = ActionView;

    open spec fn view(&self) -> ActionView {
        match self {
            Action::Query(sql) => ActionView::Query(sql@),
            Action::Execute(sql) => ActionView::Execute(sql@),
            Action::Finish => ActionView::Finish,
        }
    }
}

/// What a run answers to an event: the next action, and the error to log
/// where the event was a failure.
pub struct Step {
    pub action: Action,
    pub error: Option<String>,
}

/// A step as plain mathematical values.
pub struct StepView {
    pub action: ActionView,
    pub error: Option<Seq<char>>,
}

impl View for Step {
    type V = StepView;

    open spec fn view(&self) -> StepView {
        StepView {
            action: self.action@,
            error: match self.error {
                Some(message) => Some(message@),
                None => None,
            },
        }
    }
}

/// Where a run stands.
pub enum Stage {
    /// The catalog query for `kind` is out.
    Listing { kind: TargetKind },
    /// The statement for `targets[cursor]` is out; those before it are done.
    Applying { targets: Seq<TargetView>, cursor: nat },
    /// Nothing is out and nothing is left.
    Finished,
}

/// A run as plain mathematical values: where it stands, the kinds that are
/// still to come after the one in hand, and the schemas it leaves alone.
pub struct RunView {
    pub stage: Stage,
    pub later: Seq<TargetKind>,
    pub excluded: Seq<Seq<char>>,
}

impl RunView {
    /// A run that applies always has a target in hand.
    pub open spec fn well_formed(self) -> bool {
        match self.stage {
            Stage::Applying { targets, cursor } => cursor < targets.len(),
            _ => true,
        }
    }
}

/// The error that an event brings: the database's message where a query or a
/// statement failed.
pub open spec fn error_of(event: EventView) -> Option<Seq<char>> {
    match event {
        EventView::QueryFailed(message) => Some(message),
        EventView::Failed(message) => Some(message),
        _ => None,
    }
}

/// The action that a run is waiting for the outcome of.
pub open spec fn pending(run: RunView) -> ActionView {
    match run.stage {
        Stage::Listing { kind } => ActionView::Query(query_text(kind, run.excluded)),
        Stage::Applying { targets, cursor } => ActionView::Execute(
            statement_text(targets[cursor as int].kind, targets[cursor as int].name),
        ),
        Stage::Finished => ActionView::Finish,
    }
}

/// A run that goes on to the kinds `later`: it lists the first of them, or is
/// finished where there is none.
pub open spec fn entered(later: Seq<TargetKind>, excluded: Seq<Seq<char>>) -> RunView {
    if later.len() == 0 {
        RunView { stage: Stage::Finished, later, excluded }
    } else {
        RunView { stage: Stage::Listing { kind: later[0] }, later: later.skip(1), excluded }
    }
}

/// The run after the statement for `targets[cursor]` has been answered: on to
/// the next target, or past this kind where that was the last.
pub open spec fn proceeded(run: RunView, targets: Seq<TargetView>, cursor: nat) -> RunView {
    if cursor + 1 < targets.len() {
        RunView { stage: Stage::Applying { targets, cursor: cursor + 1 }, ..run }
    } else {
        entered(run.later, run.excluded)
    }
}

/// The run after `event`.
///
/// Rows start the work on their targets, or take the run past a kind that has
/// none; a failed catalog query takes the run past its kind. The outcome of a
/// statement, success or failure alike, takes the run to the next target. An
/// event that does not answer the action that is out leaves the run where it
/// stands.
pub open spec fn after_event(run: RunView, event: EventView) -> RunView {
    match (run.stage, event) {
        (Stage::Listing { kind }, EventView::Rows(rows)) => {
            let targets = listed(kind, run.excluded, rows);
            if targets.len() == 0 {
                entered(run.later, run.excluded)
            } else {
                RunView { stage: Stage::Applying { targets, cursor: 0 }, ..run }
            }
        },
        (Stage::Listing { kind }, EventView::QueryFailed(_)) => entered(run.later, run.excluded),
        (Stage::Applying { targets, cursor }, EventView::Succeeded) => proceeded(
            run,
            targets,
            cursor,
        ),
        (Stage::Applying { targets, cursor }, EventView::Failed(_)) => proceeded(
            run,
            targets,
            cursor,
        ),
        _ => run,
    }
}

/// What a run answers to `event`: the action that the run after the event
/// waits for, and the event's error for the log.
pub open spec fn answer(run: RunView, event: EventView) -> StepView {
    StepView { action: pending(after_event(run, event)), error: error_of(event) }
}

/// The run after a sequence of events, taken one after the other.
pub open spec fn after_events(run: RunView, events: Seq<EventView>) -> RunView
    decreases events.len(),
{
    if events.len() == 0 {
        run
    } else {
        after_events(after_event(run, events[0]), events.skip(1))
    }
}

/// What a run answers to each of a sequence of events, taken one after the
/// other.
pub open spec fn answers(run: RunView, events: Seq<EventView>) -> Seq<StepView>
    decreases events.len(),
{
    if events.len() == 0 {
        Seq::empty()
    } else {
        seq![answer(run, events[0])] + answers(after_event(run, events[0]), events.skip(1))
    }
}

/// The action that runs the maintenance statement for `target`.
pub open spec fn execution_of(target: TargetView) -> ActionView {
    ActionView::Execute(statement_text(target.kind, target.name))
}

/// Whether each of `outcomes` is the outcome of a maintenance statement, its
/// success or its failure.
pub open spec fn statement_outcomes(outcomes: Seq<EventView>) -> bool {
    forall|i: int|
        0 <= i < outcomes.len() ==> (#[trigger] outcomes[i] is Succeeded || outcomes[i] is Failed)
}

/// Every step of a well-formed run leaves it well-formed, asks for the action
/// that the run then waits for, and hands the event's error, if it brought
/// one, to the log: no error is dropped and none is made up.
pub proof fn lemma_step_is_sound(run: RunView, event: EventView)
    requires
        run.well_formed(),
    ensures
        after_event(run, event).well_formed(),
        answer(run, event).action == pending(after_event(run, event)),
        answer(run, event).error == error_of(event),
{
}

/// The applier continues past failures. A run that has the statement for
/// `targets[cursor]` out, and is told the outcome of that statement and of
/// each one after it, asks for the statement of every remaining target in
/// turn, whether the one before succeeded or failed; logs the error of each
/// failure at the step that learns of it, and nothing at a success; and ends
/// up past this kind, at the kind that comes next or finished.
pub proof fn lemma_applier_continues_past_failures(
    run: RunView,
    targets: Seq<TargetView>,
    cursor: nat,
    outcomes: Seq<EventView>,
)
    requires
        run.stage == (Stage::Applying { targets, cursor }),
        cursor < targets.len(),
        outcomes.len() == targets.len() - cursor,
        statement_outcomes(outcomes),
    ensures
        answers(run, outcomes).len() == outcomes.len(),
        forall|i: int|
            0 <= i < outcomes.len() ==> (#[trigger] answers(run, outcomes)[i]).error == error_of(
                outcomes[i],
            ),
        forall|i: int|
            0 <= i < outcomes.len() - 1 ==> (#[trigger] answers(run, outcomes)[i]).action
                == execution_of(targets[cursor + i + 1]),
        answers(run, outcomes).last().action == pending(entered(run.later, run.excluded)),
        after_events(run, outcomes) == entered(run.later, run.excluded),
    decreases outcomes.len(),
{
    let first = outcomes[0];
    let rest = outcomes.skip(1);
    let next = after_event(run, first);
    let steps = answers(run, outcomes);
    assert(first is Succeeded || first is Failed);
    assert(next == proceeded(run, targets, cursor));
    assert(steps =~= seq![answer(run, first)] + answers(next, rest));
    if cursor + 1 < targets.len() {
        assert(statement_outcomes(rest)) by {
            assert forall|i: int| 0 <= i < rest.len() implies (#[trigger] rest[i] is Succeeded
                || rest[i] is Failed) by {
                assert(rest[i] == outcomes[i + 1]);
            }
        }
        lemma_applier_continues_past_failures(next, targets, cursor + 1, rest);
        assert forall|i: int| 0 <= i < outcomes.len() implies (#[trigger] steps[i]).error
            == error_of(outcomes[i]) by {
            if i > 0 {
                assert(steps[i] == answers(next, rest)[i - 1]);
                assert(rest[i - 1] == outcomes[i]);
            }
        }
        assert forall|i: int| 0 <= i < outcomes.len() - 1 implies (#[trigger] steps[i]).action
            == execution_of(targets[cursor + i + 1]) by {
            if i > 0 {
                assert(steps[i] == answers(next, rest)[i - 1]);
            }
        }
        assert(steps.last() == answers(next, rest).last());
    } else {
        assert(rest.len() == 0);
        assert(answers(next, rest) =~= Seq::<StepView>::empty());
        assert(after_events(next, rest) == next);
    }
}

/// A whole pass over one kind. A run that has the catalog query for `kind`
/// out, and is told the rows and then the outcome of one statement for each
/// listed target, asks for the statement of every listed target, in the
/// order of the listing and whatever the outcomes; logs nothing for the rows
/// and, for each statement, its error if it failed; and ends up past this
/// kind. A failure among the statements neither stops the pass nor keeps the
/// kinds after it from running.
pub proof fn lemma_pass_attempts_every_target(
    run: RunView,
    kind: TargetKind,
    rows: Seq<RowView>,
    outcomes: Seq<EventView>,
)
    requires
        run.stage == (Stage::Listing { kind }),
        outcomes.len() == listed(kind, run.excluded, rows).len(),
        statement_outcomes(outcomes),
    ensures
        answers(run, seq![EventView::Rows(rows)] + outcomes).len() == outcomes.len() + 1,
        answers(run, seq![EventView::Rows(rows)] + outcomes)[0].error is None,
        forall|i: int|
            0 <= i < outcomes.len() ==> (#[trigger] answers(
                run,
                seq![EventView::Rows(rows)] + outcomes,
            )[i]).action == execution_of(listed(kind, run.excluded, rows)[i]),
        forall|i: int|
            0 <= i < outcomes.len() ==> (#[trigger] answers(
                run,
                seq![EventView::Rows(rows)] + outcomes,
            )[i + 1]).error == error_of(outcomes[i]),
        answers(run, seq![EventView::Rows(rows)] + outcomes).last().action == pending(
            entered(run.later, run.excluded),
        ),
        after_events(run, seq![EventView::Rows(rows)] + outcomes) == entered(
            run.later,
            run.excluded,
        ),
{
    let events = seq![EventView::Rows(rows)] + outcomes;
    let targets = listed(kind, run.excluded, rows);
    let next = after_event(run, events[0]);
    let steps = answers(run, events);
    assert(events.skip(1) =~= outcomes);
    assert(steps =~= seq![answer(run, events[0])] + answers(next, outcomes));
    if targets.len() == 0 {
        assert(answers(next, outcomes) =~= Seq::<StepView>::empty());
        assert(after_events(next, outcomes) == next);
    } else {
        lemma_applier_continues_past_failures(next, targets, 0, outcomes);
        assert forall|i: int| 0 <= i < outcomes.len() implies (#[trigger] steps[i]).action
            == execution_of(targets[i]) by {
            if i > 0 {
                assert(steps[i] == answers(next, outcomes)[i - 1]);
            }
        }
        assert forall|i: int| 0 <= i < outcomes.len() implies (#[trigger] steps[i + 1]).error
            == error_of(outcomes[i]) by {
            assert(steps[i + 1] == answers(next, outcomes)[i]);
        }
        assert(steps.last() == answers(next, outcomes).last());
    }
}

/// A catalog query that fails ends the pass over its kind, with its error for
/// the log, and the run goes on to the kind that comes next.
pub proof fn lemma_failed_listing_ends_the_pass(run: RunView, kind: TargetKind, message: Seq<char>)
    requires
        run.stage == (Stage::Listing { kind }),
    ensures
        after_event(run, EventView::QueryFailed(message)) == entered(run.later, run.excluded),
        answer(run, EventView::QueryFailed(message)).error == Some(message),
{
}

/// The kinds of object that the settings ask maintenance for, in the order in
/// which they are worked on: tables, then indexes, then materialized views.
pub open spec fn planned(settings: SettingsView) -> Seq<TargetKind> {
    (if settings.vacuum {
        seq![TargetKind::Table]
    } else {
        Seq::empty()
    }) + (if settings.reindex {
        seq![TargetKind::Index]
    } else {
        Seq::empty()
    }) + (if settings.refresh_matviews {
        seq![TargetKind::MaterializedView]
    } else {
        Seq::empty()
    })
}

enum Progress {
    Listing { kind: TargetKind },
    Applying { targets: Vec<Target>, cursor: usize },
    Finished,
}

/// A maintenance run: one pass for each kind of its plan, in order. A pass
/// lists the objects of its kind and then runs the statement for each, one at
/// a time, whatever becomes of the statements before.
pub struct Run {
    progress: Progress,
    plan: Vec<TargetKind>,
    next: usize,
    excluded: ExcludedSchemas,
}

impl View for Run {
    type V = RunView;

    closed spec fn view(&self) -> RunView {
        RunView {
            stage: match self.progress {
                Progress::Listing { kind } => Stage::Listing { kind },
                Progress::Applying { targets, cursor } => Stage::Applying {
                    targets: targets.deep_view(),
                    cursor: cursor as nat,
                },
                Progress::Finished => Stage::Finished,
            },
            later: self.plan@.skip(self.next as int),
            excluded: self.excluded@,
        }
    }
}

impl Run {
    #[verifier::type_invariant]
    spec fn consistent(&self) -> bool {
        &&& self.next <= self.plan.len()
        &&& match self.progress {
            Progress::Applying { targets, cursor } => cursor < targets.len(),
            _ => true,
        }
    }

    /// Goes on to the kinds of `plan` from `next` on.
    fn enter(plan: Vec<TargetKind>, next: usize, excluded: ExcludedSchemas) -> (started: (
        Run,
        Action,
    ))
        requires
            next <= plan.len(),
        ensures
            started.0@ == entered(plan@.skip(next as int), excluded@),
            started.1@ == pending(started.0@),
    {
        if next < plan.len() {
            let kind = plan[next];
            let sql = catalog_query(kind, &excluded);
            assert(plan@.skip(next as int).skip(1) =~= plan@.skip(next + 1));
            (
                Run { progress: Progress::Listing { kind }, plan, next: next + 1, excluded },
                Action::Query(sql),
            )
        } else {
            (Run { progress: Progress::Finished, plan, next, excluded }, Action::Finish)
        }
    }

    /// Starts a run over the kinds of `plan`, in order, that leaves the
    /// schemas of `excluded` alone. Gives the run and its first action.
    pub fn start(plan: Vec<TargetKind>, excluded: ExcludedSchemas) -> (started: (Run, Action))
        ensures
            started.0@ == entered(plan@, excluded@),
            started.1@ == pending(started.0@),
            started.0@.well_formed(),
    {
        assert(plan@.skip(0) =~= plan@);
        Run::enter(plan, 0, excluded)
    }

    /// Starts the run that `settings` ask for: a pass over the tables if
    /// vacuuming is wanted, then one over the indexes if rebuilding is wanted,
    /// then one over the materialized views if refreshing is wanted.
    pub fn new(settings: &Settings) -> (started: (Run, Action))
        ensures
            started.0@ == entered(planned(settings@), settings@.excluded_schemas),
            started.1@ == pending(started.0@),
            started.0@.well_formed(),
    {
        let mut plan: Vec<TargetKind> = Vec::new();
        if settings.vacuum() {
            plan.push(TargetKind::Table);
        }
        if settings.reindex() {
            plan.push(TargetKind::Index);
        }
        if settings.refresh_matviews() {
            plan.push(TargetKind::MaterializedView);
        }
        assert(plan@ =~= planned(settings@));
        Run::start(plan, settings.excluded().clone())
    }

    /// Whether nothing is left to do.
    pub fn is_finished(&self) -> (finished: bool)
        ensures
            finished == (self@.stage is Finished),
    {
        match self.progress {
            Progress::Finished => true,
            _ => false,
        }
    }

    /// Takes the outcome of the last action and gives the run after it with
    /// its answer: the next action, and the error to log where the outcome
    /// was a failure.
    pub fn step(self, event: Event) -> (next: (Run, Step))
        ensures
            next.0@ == after_event(self@, event@),
            next.1@ == answer(self@, event@),
            next.0@.well_formed(),
    {
        proof {
            use_type_invariant(&self);
            lemma_step_is_sound(self@, event@);
        }
        let Run { progress, plan, next, excluded } = self;
        match progress {
            Progress::Listing { kind } => match event {
                Event::Rows(rows) => {
                    let targets = list_objects(kind, &excluded, rows);
                    if targets.len() == 0 {
                        let (run, action) = Run::enter(plan, next, excluded);
                        (run, Step { action, error: None })
                    } else {
                        let sql = targets[0].statement();
                        (
                            Run {
                                progress: Progress::Applying { targets, cursor: 0 },
                                plan,
                                next,
                                excluded,
                            },
                            Step { action: Action::Execute(sql), error: None },
                        )
                    }
                },
                Event::QueryFailed(message) => {
                    let (run, action) = Run::enter(plan, next, excluded);
                    (run, Step { action, error: Some(message) })
                },
                Event::Succeeded => {
                    let sql = catalog_query(kind, &excluded);
                    (
                        Run { progress: Progress::Listing { kind }, plan, next, excluded },
                        Step { action: Action::Query(sql), error: None },
                    )
                },
                Event::Failed(message) => {
                    let sql = catalog_query(kind, &excluded);
                    (
                        Run { progress: Progress::Listing { kind }, plan, next, excluded },
                        Step { action: Action::Query(sql), error: Some(message) },
                    )
                },
            },
            Progress::Applying { targets, cursor } => match event {
                Event::Succeeded => Run::proceed(plan, next, excluded, targets, cursor, None),
                Event::Failed(message) => Run::proceed(
                    plan,
                    next,
                    excluded,
                    targets,
                    cursor,
                    Some(message),
                ),
                Event::Rows(_) => {
                    let sql = targets[cursor].statement();
                    (
                        Run { progress: Progress::Applying { targets, cursor }, plan, next, excluded },
                        Step { action: Action::Execute(sql), error: None },
                    )
                },
                Event::QueryFailed(message) => {
                    let sql = targets[cursor].statement();
                    (
                        Run { progress: Progress::Applying { targets, cursor }, plan, next, excluded },
                        Step { action: Action::Execute(sql), error: Some(message) },
                    )
                },
            },
            Progress::Finished => {
                let error = match event {
                    Event::QueryFailed(message) => Some(message),
                    Event::Failed(message) => Some(message),
                    _ => None,
                };
                (
                    Run { progress: Progress::Finished, plan, next, excluded },
                    Step { action: Action::Finish, error },
                )
            },
        }
    }

    /// Goes on after the statement for `targets[cursor]` has been answered.
    fn proceed(
        plan: Vec<TargetKind>,
        next: usize,
        excluded: ExcludedSchemas,
        targets: Vec<Target>,
        cursor: usize,
        error: Option<String>,
    ) -> (result: (Run, Step))
        requires
            next <= plan.len(),
            cursor < targets.len(),
        ensures
            result.0@ == proceeded(
                RunView {
                    stage: Stage::Applying { targets: targets.deep_view(), cursor: cursor as nat },
                    later: plan@.skip(next as int),
                    excluded: excluded@,
                },
                targets.deep_view(),
                cursor as nat,
            ),
            result.1.action@ == pending(result.0@),
            result.1.error == error,
    {
        if cursor + 1 < targets.len() {
            let sql = targets[cursor + 1].statement();
            (
                Run {
                    progress: Progress::Applying { targets, cursor: cursor + 1 },
                    plan,
                    next,
                    excluded,
                },
                Step { action: Action::Execute(sql), error },
            )
        } else {
            let (run, action) = Run::enter(plan, next, excluded);
            (run, Step { action, error })
        }
    }
}

/// Starts a pass over the base tables outside the schemas of `excluded`: each
/// is vacuumed and analyzed. Gives the run and its first action, the catalog
/// query for the tables.
pub fn vacuum_tables(excluded: &ExcludedSchemas) -> (started: (Run, Action))
    ensures
        started.0@ == entered(seq![TargetKind::Table], excluded@),
        started.1@ == ActionView::Query(query_text(TargetKind::Table, excluded@)),
{
    let mut plan: Vec<TargetKind> = Vec::new();
    plan.push(TargetKind::Table);
    Run::start(plan, excluded.clone())
}

/// Starts a pass over the indexes outside the schemas of `excluded`: each is
/// rebuilt. Gives the run and its first action, the catalog query for the
/// indexes.
pub fn reindex_indexes(excluded: &ExcludedSchemas) -> (started: (Run, Action))
    ensures
        started.0@ == entered(seq![TargetKind::Index], excluded@),
        started.1@ == ActionView::Query(query_text(TargetKind::Index, excluded@)),
{
    let mut plan: Vec<TargetKind> = Vec::new();
    plan.push(TargetKind::Index);
    Run::start(plan, excluded.clone())
}

/// Starts a pass over the materialized views, of every schema: each is
/// refreshed. Gives the run and its first action, the catalog query for the
/// materialized views.
pub fn refresh_matviews() -> (started: (Run, Action))
    ensures
        started.0@ == entered(seq![TargetKind::MaterializedView], Seq::empty()),
        started.1@ == ActionView::Query(
            query_text(TargetKind::MaterializedView, Seq::empty()),
        ),
{
    let mut plan: Vec<TargetKind> = Vec::new();
    plan.push(TargetKind::MaterializedView);
    let excluded = ExcludedSchemas::new(Vec::new());
    assert(excluded@ =~= Seq::<Seq<char>>::empty());
    Run::start(plan, excluded)
}

} // verus!
