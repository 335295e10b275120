//! The state of the explorer: its two query fields, the displayed graph, and
//! the steps of one processing tick.
//!
//! The explorer never talks to the repository engine itself. It says which
//! step is due, the caller puts the query of that step to the engine, and the
//! explorer takes the outcome.

use crate::create::{
    create_graph_from, created, option_view, outcome_view, CreateError, CreateErrorView,
};
use crate::graph::{CommitId, Graph, GraphView};
use crate::history::{History, HistoryView};
use crate::message::{compact_message, compacted};
use crate::mark::{
    answers_all, complete_or_failed, engine_failed, has_all_answers, mark_graph, marked_graph,
    marked_result, probe_nodes, probe_view, test_view, MarkError, MarkErrorView, ProbeView,
    TestView,
};
use crate::revset::{fetched_views, Revision, RevsetError};
use vstd::prelude::*;
use vstd::std_specs::iter::IteratorSpec;

verus! {

/// The selection query that an explorer starts with: the working copy.
pub const INITIAL_FILTER: &'static str = "@";

/// The view query that an explorer starts with: the working copy, the
/// mutable commits with a few of their ancestors, and the trunk.
pub const INITIAL_VIEW: &'static str = "present(@) | ancestors(immutable_heads().., 5) | present(trunk())";

/// The query that holds of the commits that are protected from rewriting.
pub const IMMUTABLE_REVSET: &'static str = "immutable()";

/// Where a query field stands between its text and what was processed.
#[derive(Clone, Copy, Debug, PartialEq, Eq, Structural)]
pub enum FieldState {
    /// The text was processed, without an error.
    Clean,
    /// The text differs from what was processed last.
    Dirty,
    /// The text was processed and gave an error, which stays on display.
    Errored,
}

/// What a [`RevsetEntry`] holds, as mathematical values.
pub struct EntryView {
    pub value: Seq<char>,
    pub old_value: Seq<char>,
    pub error: Option<Seq<char>>,
}

impl EntryView {
    /// A field that holds `text` and has processed nothing yet.
    pub open spec fn fresh(text: Seq<char>) -> EntryView {
        EntryView { value: text, old_value: Seq::empty(), error: None }
    }

    /// Whether the text differs from what was processed last.
    pub open spec fn is_dirty(self) -> bool {
        self.value != self.old_value
    }

    /// Where the field stands.
    pub open spec fn state(self) -> FieldState {
        if self.is_dirty() {
            FieldState::Dirty
        } else if self.error is Some {
            FieldState::Errored
        } else {
            FieldState::Clean
        }
    }

    /// The text to show beside the field: its error without empty lines, and
    /// nothing where there is no error.
    pub open spec fn error_text(self) -> Seq<char> {
        match self.error {
            Some(message) => compacted(message),
            None => Seq::empty(),
        }
    }

    /// The field once its text was processed with the outcome `error`.
    pub open spec fn processed(self, error: Option<Seq<char>>) -> EntryView {
        EntryView { value: self.value, old_value: self.value, error }
    }
}

/// One query field: its text, the text that was processed last, and the error
/// that processing gave.
#[derive(Debug)]
pub struct RevsetEntry {
    pub value: String,
    pub old_value: String,
    pub error: Option<String>,
}

impl View for RevsetEntry {
    type V = EntryView;

    open spec fn view(&self) -> EntryView {
        EntryView {
            value: self.value@,
            old_value: self.old_value@,
            error: match self.error {
                Some(message) => Some(message@),
                None => None,
            },
        }
    }
}

impl RevsetEntry {
    /// A field that holds `initial_value` and has processed nothing yet.
    pub fn new(initial_value: &str) -> (entry: RevsetEntry)
        ensures
            entry@ == EntryView::fresh(initial_value@),
    {
        RevsetEntry { value: initial_value.to_owned(), old_value: String::new(), error: None }
    }

    /// Whether the text differs from what was processed last.
    pub fn is_dirty(&self) -> (dirty: bool)
        ensures
            dirty == self@.is_dirty(),
    {
        !(self.value == self.old_value)
    }

    /// Where the field stands.
    pub fn state(&self) -> (state: FieldState)
        ensures
            state == self@.state(),
    {
        if self.is_dirty() {
            FieldState::Dirty
        } else if self.error.is_some() {
            FieldState::Errored
        } else {
            FieldState::Clean
        }
    }

    /// The text to show beside the field: its error without empty lines, and
    /// nothing where there is no error.
    pub fn error_text(&self) -> (text: String)
        ensures
            text@ == self@.error_text(),
    {
        match &self.error {
            Some(message) => compact_message(message.as_str()),
            None => String::new(),
        }
    }

    /// Notes that the text was processed, with the outcome `error`.
    pub fn set_processed(&mut self, error: Option<String>)
        ensures
            final(self)@ == old(self)@.processed(
                match error {
                    Some(message) => Some(message@),
                    None => None,
                },
            ),
    {
        self.old_value = self.value.clone();
        self.error = error;
    }
}

/// What a processing tick has to do next.
#[derive(Clone, Copy, Debug, PartialEq, Eq, Structural)]
pub enum Step {
    /// Evaluate the view query and hand the outcome to `graph_created`.
    CreateGraph,
    /// Put the selection query and the immutability query to every node and
    /// hand the answers to `graph_marked`.
    MarkGraph,
    /// Nothing: the tick is over.
    Idle,
}

/// One of the two query fields.
#[derive(Clone, Copy, Debug, PartialEq, Eq, Structural)]
pub enum Field {
    /// The selection query: which of the displayed commits are highlighted.
    Filter,
    /// The view query: which commits are displayed.
    View,
}

/// The warning that stands for a graph that was cut at the node limit.
pub open spec fn limit_warning() -> Seq<char> {
    "Node limit reached. The graph is incomplete."@
}

/// What an [`Explorer`] holds, as mathematical values.
pub struct ExplorerView {
    pub filter_revset: EntryView,
    pub view_revset: EntryView,
    pub filter_history: HistoryView,
    pub view_history: HistoryView,
    pub graph: GraphView,
    pub limit_hit: bool,
    pub working_copy: Option<Seq<u8>>,
    pub marking_due: bool,
}

impl ExplorerView {
    /// The explorer with the given texts in its fields, before anything was
    /// processed: no node is displayed and nothing was entered.
    pub open spec fn start(
        filter: Seq<char>,
        view: Seq<char>,
        working_copy: Option<Seq<u8>>,
        history_size: nat,
    ) -> ExplorerView {
        ExplorerView {
            filter_revset: EntryView::fresh(filter),
            view_revset: EntryView::fresh(view),
            filter_history: HistoryView::empty(history_size),
            view_history: HistoryView::empty(history_size),
            graph: GraphView::empty(),
            limit_hit: false,
            working_copy,
            marking_due: false,
        }
    }

    /// The step that is due: a changed view query is evaluated first; the
    /// nodes are marked when the view query was processed in this tick or the
    /// selection query changed.
    pub open spec fn next_step(self) -> Step {
        if self.view_revset.is_dirty() {
            Step::CreateGraph
        } else if self.marking_due || self.filter_revset.is_dirty() {
            Step::MarkGraph
        } else {
            Step::Idle
        }
    }

    /// The state after the view query was evaluated with `outcome`. A graph
    /// that was built replaces the displayed one and clears the error of the
    /// view field. A failure leaves graph and flag as they are and becomes the
    /// error of the view field. Either way the text counts as processed, and
    /// marking is due.
    pub open spec fn created(self, outcome: Result<(GraphView, bool), CreateErrorView>) -> ExplorerView {
        match outcome {
            Ok((graph, limit_hit)) => ExplorerView {
                graph,
                limit_hit,
                view_revset: self.view_revset.processed(None),
                marking_due: true,
                ..self
            },
            Err(error) => ExplorerView {
                view_revset: self.view_revset.processed(Some(error.message())),
                marking_due: true,
                ..self
            },
        }
    }

    /// The error of the selection field after marking gave `result`: cleared
    /// by success, set by a query that could not be resolved, and left alone
    /// by a failure of the engine, which the query text is not to blame for.
    pub open spec fn filter_error_after(self, result: Result<(), MarkErrorView>) -> Option<Seq<char>> {
        match result {
            Ok(()) => None,
            Err(MarkErrorView::RevsetParseError(message)) => Some(message),
            Err(MarkErrorView::JjError) => self.filter_revset.error,
        }
    }

    /// The state after the engine answered both queries for every node.
    pub open spec fn marked(
        self,
        filter: ProbeView,
        immutable: ProbeView,
    ) -> ExplorerView {
        ExplorerView {
            graph: marked_graph(self.graph, self.working_copy, filter, immutable),
            filter_revset: self.filter_revset.processed(
                self.filter_error_after(marked_result(self.graph.nodes.len(), filter, immutable)),
            ),
            marking_due: false,
            ..self
        }
    }

    /// The state after a whole tick in which the engine gave `outcome` for
    /// the view query and `filter` and `immutable` for the two queries that
    /// are put to the nodes: the graph is built if the view query changed, and
    /// the nodes are marked if it was, or if the selection query changed. A
    /// step that is not due leaves the state alone, whatever the engine would
    /// have said.
    pub open spec fn ticked(
        self,
        outcome: Result<(GraphView, bool), CreateErrorView>,
        filter: ProbeView,
        immutable: ProbeView,
    ) -> ExplorerView {
        let built = if self.next_step() == Step::CreateGraph {
            self.created(outcome)
        } else {
            self
        };
        if built.next_step() == Step::MarkGraph {
            built.marked(filter, immutable)
        } else {
            built
        }
    }

    /// The text to show beside the view field: its error if it has one, else
    /// the warning that the graph was cut at the node limit, else nothing.
    pub open spec fn view_notice(self) -> Seq<char> {
        if self.view_revset.error is None && self.limit_hit {
            limit_warning()
        } else {
            self.view_revset.error_text()
        }
    }

    /// The history of `field`.
    pub open spec fn history(self, field: Field) -> HistoryView {
        match field {
            Field::Filter => self.filter_history,
            Field::View => self.view_history,
        }
    }

    /// The text of `field`.
    pub open spec fn value(self, field: Field) -> Seq<char> {
        match field {
            Field::Filter => self.filter_revset.value,
            Field::View => self.view_revset.value,
        }
    }

    /// This state with `text` in `field` and `history` as its history.
    pub open spec fn with_field(self, field: Field, text: Seq<char>, history: HistoryView) -> ExplorerView {
        match field {
            Field::Filter => ExplorerView {
                filter_revset: EntryView { value: text, ..self.filter_revset },
                filter_history: history,
                ..self
            },
            Field::View => ExplorerView {
                view_revset: EntryView { value: text, ..self.view_revset },
                view_history: history,
                ..self
            },
        }
    }

    /// The state after `text` was entered into `field`.
    pub open spec fn edited(self, field: Field, text: Seq<char>, is_tentative: bool) -> ExplorerView {
        self.with_field(field, text, self.history(field).add(text, is_tentative))
    }

    /// The state after the history of `field` became `history`, with its
    /// cursor moved: the field shows the entry under the cursor. Without
    /// entries the text of the field stays.
    pub open spec fn recalled(self, field: Field, history: HistoryView) -> ExplorerView {
        if history.items.len() == 0 {
            self.with_field(field, self.value(field), history)
        } else {
            self.with_field(field, history.items[history.view_pos as int], history)
        }
    }
}

/// Whether `answer` is what `contains` gave for the commit `id`.
pub open spec fn answered_by<F: Fn(&CommitId) -> Result<bool, String>>(
    contains: F,
    id: Seq<u8>,
    answer: TestView,
) -> bool {
    exists|commit: &CommitId, test: Result<bool, String>|
        {
            &&& commit@ == id
            &&& #[trigger] call_ensures(contains, (commit,), test)
            &&& test_view(test) == answer
        }
}

/// Whether `tests` is what comes of putting `contains` to the nodes of
/// `graph`, in order, up to the first failure: each test is what `contains`
/// gave for the node in its place, every test but the last is an answer, and
/// tests are missing only behind a failure.
pub open spec fn tested_by<F: Fn(&CommitId) -> Result<bool, String>>(
    contains: F,
    graph: GraphView,
    tests: Seq<TestView>,
) -> bool {
    &&& complete_or_failed(tests, graph.nodes.len())
    &&& forall|i: int|
        0 <= i < tests.len() ==> #[trigger] answered_by(contains, graph.nodes[i].id, tests[i])
}

/// Whether `probe` is what comes of the query `text` when `resolve` is asked
/// for it: the error of a query that it could not resolve; else, where the
/// nodes are `asked`, the tests that its membership test gave for the nodes
/// of `graph` up to the first failure; else no test at all.
pub open spec fn probed_as<F: Fn(&CommitId) -> Result<bool, String>, R: Fn(&str) -> Result<
    F,
    RevsetError,
>>(resolve: R, text: Seq<char>, graph: GraphView, asked: bool, probe: ProbeView) -> bool {
    exists|query: &str, resolved: Result<F, RevsetError>|
        {
            &&& query@ == text
            &&& #[trigger] call_ensures(resolve, (query,), resolved)
            &&& resolved matches Err(error) ==> probe == Err::<Seq<TestView>, Seq<char>>(
                error.spec_message(),
            )
            &&& resolved matches Ok(contains) ==> probe is Ok && if asked {
                tested_by(contains, graph, probe->Ok_0)
            } else {
                probe->Ok_0.len() == 0
            }
        }
}

/// The explorer: two query fields with their histories, the displayed graph,
/// and whether that graph was cut at the node limit.
#[derive(Debug)]
pub struct Explorer {
    /// The selection query.
    pub filter_revset: RevsetEntry,
    /// The view query.
    pub view_revset: RevsetEntry,
    /// What was entered into the selection field.
    pub filter_history: History,
    /// What was entered into the view field.
    pub view_history: History,
    /// The displayed graph.
    pub graph: Graph,
    /// Whether the displayed graph holds as many nodes as a graph can: it may
    /// be incomplete.
    pub limit_hit: bool,
    /// The commit that is checked out, if the repository has one.
    pub working_copy_commit_id: Option<CommitId>,
    /// Whether the view query was processed in this tick, so that the nodes
    /// have to be marked whatever the selection field says.
    pub marking_due: bool,
}

impl View for Explorer {
    type V = ExplorerView;

    open spec fn view(&self) -> ExplorerView {
        ExplorerView {
            filter_revset: self.filter_revset@,
            view_revset: self.view_revset@,
            filter_history: self.filter_history@,
            view_history: self.view_history@,
            graph: self.graph@,
            limit_hit: self.limit_hit,
            working_copy: option_view(self.working_copy_commit_id),
            marking_due: self.marking_due,
        }
    }
}

impl Explorer {
    /// An explorer with the given texts in its fields, an empty graph and
    /// empty histories of `history_size` entries. Nothing is processed yet.
    pub fn new(
        initial_filter: &str,
        initial_view: &str,
        working_copy_commit_id: Option<CommitId>,
        history_size: usize,
    ) -> (explorer: Explorer)
        ensures
            explorer@ == ExplorerView::start(
                initial_filter@,
                initial_view@,
                option_view(working_copy_commit_id),
                history_size as nat,
            ),
    {
        Explorer {
            filter_revset: RevsetEntry::new(initial_filter),
            view_revset: RevsetEntry::new(initial_view),
            filter_history: History::new(history_size),
            view_history: History::new(history_size),
            graph: Graph::new(),
            limit_hit: false,
            working_copy_commit_id,
            marking_due: false,
        }
    }

    /// The step that is due in this tick.
    pub fn next_step(&self) -> (step: Step)
        ensures
            step == self@.next_step(),
    {
        if self.view_revset.is_dirty() {
            Step::CreateGraph
        } else if self.marking_due || self.filter_revset.is_dirty() {
            Step::MarkGraph
        } else {
            Step::Idle
        }
    }

    /// Takes the outcome of evaluating the view query. Returns whether the
    /// displayed graph was replaced, so that its layout has to start afresh.
    pub fn graph_created(&mut self, outcome: Result<(Graph, bool), CreateError>) -> (replaced: bool)
        ensures
            final(self)@ == old(self)@.created(outcome_view(outcome)),
            replaced == outcome is Ok,
    {
        self.marking_due = true;
        match outcome {
            Ok((graph, limit_hit)) => {
                self.graph = graph;
                self.limit_hit = limit_hit;
                self.view_revset.set_processed(None);
                true
            },
            Err(error) => {
                self.view_revset.set_processed(Some(error.message().clone()));
                false
            },
        }
    }

    /// Takes the answers of the engine to the selection query and to the
    /// immutability query, one membership test for each node of the displayed
    /// graph, and marks the nodes.
    pub fn graph_marked(
        &mut self,
        filter: &Result<Vec<Result<bool, String>>, RevsetError>,
        immutable: &Result<Vec<Result<bool, String>>, RevsetError>,
    )
        ensures
            final(self)@ == old(self)@.marked(probe_view(*filter), probe_view(*immutable)),
    {
        let result = mark_graph(&mut self.graph, &self.working_copy_commit_id, filter, immutable);
        let error = match result {
            Ok(()) => None,
            Err(MarkError::RevsetParseError(message)) => Some(message),
            Err(MarkError::JjError) => self.filter_revset.error.clone(),
        };
        self.filter_revset.set_processed(error);
        self.marking_due = false;
    }

    /// Puts a query that was resolved to the nodes of the displayed graph.
    /// Where `wanted` is false the engine is not asked: the result then holds
    /// no answers.
    fn probe<F: Fn(&CommitId) -> Result<bool, String>>(
        &self,
        resolved: Result<F, RevsetError>,
        wanted: bool,
    ) -> (tests: Result<Vec<Result<bool, String>>, RevsetError>)
        requires
            resolved matches Ok(contains) ==> forall|id: &CommitId| call_requires(contains, (id,)),
        ensures
            resolved matches Err(error) ==> probe_view(tests) == Err::<Seq<TestView>, Seq<char>>(
                error.spec_message(),
            ),
            resolved matches Ok(contains) ==> probe_view(tests) is Ok && if wanted {
                tested_by(contains, self@.graph, probe_view(tests)->Ok_0)
            } else {
                probe_view(tests)->Ok_0.len() == 0
            },
    {
        match resolved {
            Ok(contains) => {
                if wanted {
                    let tests = probe_nodes(&self.graph, &contains);
                    proof {
                        let views = probe_view(Ok(tests))->Ok_0;
                        assert forall|i: int| 0 <= i < views.len() implies #[trigger] answered_by(
                            contains,
                            self@.graph.nodes[i].id,
                            views[i],
                        ) by {
                            let id = choose|id: &CommitId|
                                id@ == self@.graph.nodes[i].id && call_ensures(
                                    &contains,
                                    (id,),
                                    tests@[i],
                                );
                            assert(call_ensures(contains, (id,), tests@[i]));
                        }
                    }
                    Ok(tests)
                } else {
                    Ok(Vec::new())
                }
            },
            Err(error) => Err(error),
        }
    }

    /// Runs one processing tick against the engine.
    ///
    /// `evaluate` resolves and evaluates a view query and hands its commits
    /// out one by one; `resolve` resolves a query into a membership test.
    /// A view query that changed is evaluated and the graph is built; the
    /// commits are taken only as far as the build needs them. Then, if the
    /// view query was processed or the selection query changed, the
    /// selection query and the immutability query are resolved, the nodes are
    /// tested, first for immutability and then for selection, and marked.
    /// Once the engine has failed no node is tested any more. A field whose
    /// text did not change costs no call of the engine.
    ///
    /// Returns whether the displayed graph was replaced.
    ///
    /// The engine decides what comes of a tick, so the contract speaks of its
    /// answers. `evaluate` was asked for the text of the view field; its error
    /// is the outcome of the build, and so is the build of the items that its
    /// iterator gave: of all the items that it holds, where the iterator
    /// keeps to the laws of iterators. `resolve` was asked for the
    /// immutability query and for the text of the selection field. The
    /// immutability test was put to every node up to the first failure, the
    /// selection test likewise, but to no node unless every node has its
    /// answer on immutability. The state is the one that these answers lead
    /// to, and no step is left to do.
    pub fn update<I, F, V, R>(&mut self, evaluate: V, resolve: R) -> (replaced: bool) where
        I: Iterator<Item = Result<Revision, String>>,
        F: Fn(&CommitId) -> Result<bool, String>,
        V: Fn(&str) -> Result<I, RevsetError>,
        R: Fn(&str) -> Result<F, RevsetError>,

        requires
            forall|query: &str| call_requires(evaluate, (query,)),
            forall|query: &str| call_requires(resolve, (query,)),
            forall|query: &str, contains: F, id: &CommitId|
                call_ensures(resolve, (query,), Ok::<F, RevsetError>(contains)) ==> call_requires(
                    contains,
                    (id,),
                ),
        ensures
            exists|
                outcome: Result<(GraphView, bool), CreateErrorView>,
                filter: ProbeView,
                immutable: ProbeView,
            |
                {
                    &&& final(self)@ == #[trigger] old(self)@.ticked(outcome, filter, immutable)
                    &&& replaced == (old(self)@.next_step() == Step::CreateGraph && outcome is Ok)
                    &&& old(self)@.next_step() == Step::CreateGraph ==> exists|
                        query: &str,
                        evaluated: Result<I, RevsetError>,
                    |
                        {
                            &&& query@ == old(self)@.view_revset.value
                            &&& #[trigger] call_ensures(evaluate, (query,), evaluated)
                            &&& evaluated matches Err(error) ==> outcome == Err::<
                                (GraphView, bool),
                                CreateErrorView,
                            >(CreateErrorView::RevsetParseError(error.spec_message()))
                            &&& evaluated is Ok ==> exists|taken: Seq<Result<Revision, String>>|
                                outcome == created(
                                    Ok(#[trigger] fetched_views(taken)),
                                    old(self)@.working_copy,
                                )
                            &&& evaluated matches Ok(items) ==> (<I as IteratorSpec>::obeys_prophetic_iter_laws(
                                &items,
                            ) ==> outcome == created(
                                Ok(fetched_views(<I as IteratorSpec>::remaining(&items))),
                                old(self)@.working_copy,
                            ))
                        }
                    &&& old(self)@.next_step() != Step::Idle ==> {
                        let graph = if old(self)@.next_step() == Step::CreateGraph {
                            old(self)@.created(outcome).graph
                        } else {
                            old(self)@.graph
                        };
                        &&& probed_as(resolve, IMMUTABLE_REVSET@, graph, true, immutable)
                        &&& probed_as(
                            resolve,
                            old(self)@.filter_revset.value,
                            graph,
                            immutable is Ok && answers_all(immutable->Ok_0, graph.nodes.len()),
                            filter,
                        )
                    }
                },
            final(self)@.next_step() == Step::Idle,
            old(self)@.next_step() == Step::Idle ==> final(self)@ == old(self)@ && !replaced,
    {
        let ghost before = self@;
        let ghost mut outcome: Result<(GraphView, bool), CreateErrorView> = Err(
            CreateErrorView::JjError(Seq::empty()),
        );
        let mut replaced = false;
        if self.view_revset.is_dirty() {
            let evaluated = evaluate(self.view_revset.value.as_str());
            let working_copy = match &self.working_copy_commit_id {
                Some(id) => Some(id.clone()),
                None => None,
            };
            let created = create_graph_from(evaluated, working_copy);
            proof {
                outcome = outcome_view(created);
            }
            replaced = self.graph_created(created);
        }
        let ghost built = self@;
        let ghost mut filter: ProbeView = Err(Seq::empty());
        let ghost mut immutable: ProbeView = Err(Seq::empty());
        if self.marking_due || self.filter_revset.is_dirty() {
            let filter_resolved = resolve(self.filter_revset.value.as_str());
            let immutable_resolved = resolve(IMMUTABLE_REVSET);
            let immutable_tests = self.probe(immutable_resolved, true);
            let answered = match &immutable_tests {
                Ok(tests) => has_all_answers(tests, self.graph.nodes().len()),
                Err(_) => false,
            };
            let filter_tests = self.probe(filter_resolved, answered);
            proof {
                filter = probe_view(filter_tests);
                immutable = probe_view(immutable_tests);
            }
            self.graph_marked(&filter_tests, &immutable_tests);
        }
        assert(self@ == before.ticked(outcome, filter, immutable));
        replaced
    }

    /// The text to show beside the view field: its error if it has one, else
    /// the warning that the graph was cut at the node limit, else nothing.
    pub fn view_notice(&self) -> (text: String)
        ensures
            text@ == self@.view_notice(),
    {
        if self.view_revset.error.is_none() && self.limit_hit {
            "Node limit reached. The graph is incomplete.".to_owned()
        } else {
            self.view_revset.error_text()
        }
    }

    /// Enters `text` into `field`: the field shows it and its history logs it.
    pub fn edit(&mut self, field: Field, text: &str, is_tentative: bool)
        ensures
            final(self)@ == old(self)@.edited(field, text@, is_tentative),
    {
        match field {
            Field::Filter => {
                self.filter_revset.value = text.to_owned();
                self.filter_history.add(text, is_tentative);
            },
            Field::View => {
                self.view_revset.value = text.to_owned();
                self.view_history.add(text, is_tentative);
            },
        }
    }

    /// Steps back in the history of `field`: the field shows the entry before
    /// the one under the cursor, or the oldest.
    pub fn undo(&mut self, field: Field)
        ensures
            final(self)@ == old(self)@.recalled(field, old(self)@.history(field).prev()),
    {
        match field {
            Field::Filter => {
                self.filter_history.prev();
                if !self.filter_history.is_empty() {
                    self.filter_revset.value = self.filter_history.get().to_owned();
                }
            },
            Field::View => {
                self.view_history.prev();
                if !self.view_history.is_empty() {
                    self.view_revset.value = self.view_history.get().to_owned();
                }
            },
        }
    }

    /// Steps forward in the history of `field`: the field shows the entry
    /// after the one under the cursor, or the newest.
    pub fn redo(&mut self, field: Field)
        ensures
            final(self)@ == old(self)@.recalled(field, old(self)@.history(field).next()),
    {
        match field {
            Field::Filter => {
                self.filter_history.next();
                if !self.filter_history.is_empty() {
                    self.filter_revset.value = self.filter_history.get().to_owned();
                }
            },
            Field::View => {
                self.view_history.next();
                if !self.view_history.is_empty() {
                    self.view_revset.value = self.view_history.get().to_owned();
                }
            },
        }
    }
}

/// A tick ends: once the view query was evaluated the nodes are to be marked,
/// and once they are marked nothing is left to do, until a text changes.
pub proof fn lemma_tick_ends(
    state: ExplorerView,
    outcome: Result<(GraphView, bool), CreateErrorView>,
    filter: ProbeView,
    immutable: ProbeView,
)
    ensures
        state.created(outcome).next_step() == Step::MarkGraph,
        !state.view_revset.is_dirty() ==> state.marked(filter, immutable).next_step() == Step::Idle,
        state.created(outcome).marked(filter, immutable).next_step() == Step::Idle,
{
}

/// A failed build leaves the displayed graph and its flag untouched, and a
/// failure of the engine while marking leaves graph and selection error
/// untouched.
pub proof fn lemma_failure_keeps_display(
    state: ExplorerView,
    error: CreateErrorView,
    filter: ProbeView,
    immutable: ProbeView,
)
    ensures
        state.created(Err(error)).graph == state.graph,
        state.created(Err(error)).limit_hit == state.limit_hit,
        state.created(Err(error)).view_revset.error == Some(error.message()),
        state.created(Err(error)).filter_revset == state.filter_revset,
        engine_failed(state.graph.nodes.len(), filter, immutable) ==> {
            &&& state.marked(filter, immutable).graph == state.graph
            &&& state.marked(filter, immutable).filter_revset.error == state.filter_revset.error
            &&& state.marked(filter, immutable).view_revset == state.view_revset
        },
{
}

/// A selection query that cannot be resolved costs nothing but the
/// highlighting. When the view query gave `graph` and the engine answered the
/// immutability query for every node, the whole of `graph` is displayed,
/// every node is classified and none as matching, the selection field shows
/// the error, and the view field shows none.
pub proof fn lemma_bad_selection_keeps_graph(
    state: ExplorerView,
    graph: GraphView,
    limit_hit: bool,
    message: Seq<char>,
    immutable: Seq<TestView>,
)
    requires
        crate::mark::answers_all(immutable, graph.nodes.len()),
    ensures
        ({
            let after = state.created(Ok((graph, limit_hit))).marked(Err(message), Ok(immutable));
            &&& after.graph.nodes.len() == graph.nodes.len()
            &&& after.graph.edges == graph.edges
            &&& forall|i: int|
                0 <= i < graph.nodes.len() ==> {
                    &&& (#[trigger] after.graph.nodes[i]).id == graph.nodes[i].id
                    &&& after.graph.nodes[i].label == graph.nodes[i].label
                    &&& after.graph.nodes[i].category is Some
                    &&& after.graph.nodes[i].category->0.filter_match
                        == crate::category::FilterMatch::NoMatch
                }
            &&& after.filter_revset.error == Some(message)
            &&& after.view_revset.error is None
            &&& after.limit_hit == limit_hit
        }),
{
}

/// Processing the same outcomes a second time changes nothing: the same
/// nodes, labels, categories and edges are displayed, and the fields show the
/// same errors.
pub proof fn lemma_rebuild_idempotent(
    state: ExplorerView,
    outcome: Result<(GraphView, bool), CreateErrorView>,
    filter: ProbeView,
    immutable: ProbeView,
)
    ensures
        state.created(outcome).marked(filter, immutable).created(outcome).marked(filter, immutable)
            == state.created(outcome).marked(filter, immutable),
{
    let once = state.created(outcome).marked(filter, immutable);
    let twice = once.created(outcome).marked(filter, immutable);
    assert(twice.graph.nodes =~= once.graph.nodes);
}

} // verus!
