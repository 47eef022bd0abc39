//! The source of rows: assignments of relations to connections, and the
//! course that the export of one assignment takes.
//!
//! An assignment does no input or output of its own. Whoever drives it
//! connects, starts exports and polls their channels, and tells the
//! assignment how each of these went; the assignment answers with the item
//! that the stream of rows yields for it, if any, and with what to do next.

use crate::binary_copy::connection_closed;
use crate::binary_copy::frame;
use crate::binary_copy::header_after;
use crate::binary_copy::BinaryCopyOutStream;
use crate::buffer::as_slice;
use crate::buffer::contents;
use crate::data::is_record;
use crate::data::record_type;
use crate::data::DecodeError;
use crate::data::DecodeErrorView;
use crate::data::PostgresData;
use crate::error::report;
use crate::error::ErrorView;
use crate::error::PostgresError;
use crate::params::ConnectParams;
use crate::relation::copy_command;
use crate::relation::copy_query;
use crate::relation::Source;
use bytes::Bytes;
use std::marker::PhantomData;
use postgres_types::Type;
use vstd::prelude::*;

verus! {

/// Why an assignment yielded no row: the export failed, or a row could not
/// be read as the type asked for.
#[derive(Debug)]
pub enum RowError {
    /// The channel broke or the database refused.
    Postgres(PostgresError),
    /// The bytes of a row do not fit the type of the rows.
    Decode(DecodeError),
}

/// What a `RowError` stands for.
pub enum RowErrorView {
    Postgres(ErrorView),
    Decode(DecodeErrorView),
}

impl View for RowError {
    type V = RowErrorView;

    open spec fn view(&self) -> RowErrorView {
        match self {
            RowError::Postgres(error) => RowErrorView::Postgres(error@),
            RowError::Decode(error) => RowErrorView::Decode(error@),
        }
    }
}

impl RowError {
    /// The error as text.
    pub fn to_string(&self) -> (text: String)
        ensures
            text@ == match self@ {
                RowErrorView::Postgres(error) => error.text(),
                RowErrorView::Decode(error) => error.text(),
            },
    {
        match self {
            RowError::Postgres(error) => error.to_string(),
            RowError::Decode(error) => error.to_string(),
        }
    }
}

/// Where an assignment stands.
#[derive(Clone, Copy, Debug, PartialEq, Eq, Structural)]
pub enum Phase {
    /// The connection is being opened.
    Connecting,
    /// The export of a relation has been asked for.
    Opening,
    /// The export of a relation is delivering rows.
    Streaming,
    /// The assignment has ended, and yields nothing more.
    Finished,
}

/// What an assignment is told.
pub enum Event {
    /// How the attempt to connect ended.
    Connected(Result<(), tokio_postgres::Error>),
    /// How the attempt to start an export ended.
    Opened(Result<(), tokio_postgres::Error>),
    /// What a poll of the export's channel returned: a chunk, a failure, or
    /// `None` when the channel has ended.
    Polled(Option<Result<Bytes, tokio_postgres::Error>>),
}

/// How an event bears on the course of an assignment.
pub enum Signal {
    /// The connection is open.
    Connection,
    /// The export has started.
    Export,
    /// The export delivered a row.
    Row,
    /// The export reached its trailer.
    Trailer,
    /// Connecting, starting an export or reading from one failed, or a row
    /// could not be decoded.
    Failure,
}

/// What the driver of an assignment does next.
#[derive(Debug, PartialEq, Eq)]
pub enum Request {
    /// Send this command to start the export of the next relation.
    Export(String),
    /// Poll the channel of the running export.
    Poll,
    /// Nothing: close the connection.
    Finish,
}

/// The answer of an assignment to an event.
pub struct Transition<Row> {
    /// The item that the stream of rows yields for the event, if any.
    pub item: Option<Result<Row, RowError>>,
    /// What to do next.
    pub next: Request,
}

/// How far an assignment of `relations` relations has come: its phase, and
/// the number of relations whose export is complete.
pub struct Progress {
    pub phase: Phase,
    pub position: nat,
    pub relations: nat,
}

impl Progress {
    /// An assignment of `relations` relations before anything has happened.
    pub open spec fn start(relations: nat) -> Progress {
        Progress { phase: Phase::Connecting, position: 0, relations }
    }

    /// Whether the progress is one that an assignment can have: while an
    /// export is asked for or running there is a relation left to export.
    pub open spec fn wf(self) -> bool {
        &&& self.position <= self.relations
        &&& (self.phase == Phase::Opening || self.phase == Phase::Streaming) ==> self.position
            < self.relations
    }

    /// Whether the signal can occur at this point.
    pub open spec fn admits(self, signal: Signal) -> bool {
        match signal {
            Signal::Connection => self.phase == Phase::Connecting,
            Signal::Export => self.phase == Phase::Opening,
            Signal::Row | Signal::Trailer => self.phase == Phase::Streaming,
            Signal::Failure => self.phase != Phase::Finished,
        }
    }

    /// The phase in which the next relation, if there is one, is taken up.
    pub open spec fn onward(self) -> Progress {
        Progress {
            phase: if self.position < self.relations {
                Phase::Opening
            } else {
                Phase::Finished
            },
            ..self
        }
    }

    /// The progress after the signal.
    pub open spec fn after(self, signal: Signal) -> Progress {
        match signal {
            Signal::Connection => self.onward(),
            Signal::Export => Progress { phase: Phase::Streaming, ..self },
            Signal::Row => self,
            Signal::Trailer => Progress { position: self.position + 1, ..self }.onward(),
            Signal::Failure => Progress { phase: Phase::Finished, ..self },
        }
    }

    /// Whether the signals can occur one after another from this point.
    pub open spec fn admits_all(self, signals: Seq<Signal>) -> bool
        decreases signals.len(),
    {
        signals.len() == 0 || (self.admits(signals[0]) && self.after(signals[0]).admits_all(
            signals.skip(1),
        ))
    }

    /// The progress after the signals.
    pub open spec fn after_all(self, signals: Seq<Signal>) -> Progress
        decreases signals.len(),
    {
        if signals.len() == 0 {
            self
        } else {
            self.after(signals[0]).after_all(signals.skip(1))
        }
    }
}

/// The number of rows among the signals.
pub open spec fn rows_in(signals: Seq<Signal>) -> nat
    decreases signals.len(),
{
    if signals.len() == 0 {
        0
    } else if signals.last() is Row {
        rows_in(signals.drop_last()) + 1
    } else {
        rows_in(signals.drop_last())
    }
}

/// The number of failures among the signals.
pub open spec fn failures_in(signals: Seq<Signal>) -> nat
    decreases signals.len(),
{
    if signals.len() == 0 {
        0
    } else if signals.last() is Failure {
        failures_in(signals.drop_last()) + 1
    } else {
        failures_in(signals.drop_last())
    }
}

/// An assignment whose connection fails yields one error and has ended:
/// nothing can follow the failure.
pub proof fn lemma_failed_connection_ends(relations: nat, later: Signal)
    ensures
        Progress::start(relations).admits(Signal::Failure),
        Progress::start(relations).after(Signal::Failure).phase == Phase::Finished,
        !Progress::start(relations).after(Signal::Failure).admits(later),
        failures_in(seq![Signal::Failure]) == 1,
        rows_in(seq![Signal::Failure]) == 0,
{
    let only = seq![Signal::Failure];
    assert(only.drop_last() =~= Seq::<Signal>::empty());
    assert(failures_in(only.drop_last()) == 0);
    assert(rows_in(only.drop_last()) == 0);
}

/// A failure ends an assignment: in every course that an assignment can
/// take there is at most one failure, and it is the last thing to happen.
pub proof fn lemma_failure_is_last(start: Progress, signals: Seq<Signal>, i: int)
    requires
        start.admits_all(signals),
        0 <= i < signals.len(),
        signals[i] is Failure,
    ensures
        i == signals.len() - 1,
        failures_in(signals) == 1,
    decreases signals.len(),
{
    let rest = signals.skip(1);
    assert(start.after(signals[0]).admits_all(rest));
    if i == 0 {
        let ended = start.after(signals[0]);
        if rest.len() > 0 {
            assert(ended.admits(rest[0]));
            assert(false);
        }
        assert(signals.drop_last() =~= Seq::<Signal>::empty());
        assert(failures_in(signals.drop_last()) == 0);
    } else {
        assert(rest[i - 1] == signals[i]);
        lemma_failure_is_last(start.after(signals[0]), rest, i - 1);
        assert(signals.drop_last().skip(1) =~= rest.drop_last());
        lemma_counts_skip_first(signals);
        lemma_counts_skip_first(signals.drop_last());
    }
}

/// Counting from the front gives what counting from the back gives.
proof fn lemma_counts_skip_first(signals: Seq<Signal>)
    requires
        signals.len() > 0,
    ensures
        failures_in(signals) == failures_in(signals.skip(1)) + (if signals[0] is Failure {
            1nat
        } else {
            0nat
        }),
        rows_in(signals) == rows_in(signals.skip(1)) + (if signals[0] is Row {
            1nat
        } else {
            0nat
        }),
    decreases signals.len(),
{
    if signals.len() == 1 {
        assert(signals.skip(1) =~= Seq::<Signal>::empty());
        assert(signals.drop_last() =~= Seq::<Signal>::empty());
    } else {
        lemma_counts_skip_first(signals.drop_last());
        assert(signals.drop_last().skip(1) =~= signals.skip(1).drop_last());
        assert(signals.skip(1).last() == signals.last());
    }
}

/// Every course that an assignment can take keeps its progress well-formed
/// and never goes back: the number of exported relations only grows.
pub proof fn lemma_progress_is_kept(start: Progress, signals: Seq<Signal>)
    requires
        start.wf(),
        start.admits_all(signals),
    ensures
        start.after_all(signals).wf(),
        start.after_all(signals).relations == start.relations,
        start.after_all(signals).position >= start.position,
    decreases signals.len(),
{
    if signals.len() > 0 {
        lemma_progress_is_kept(start.after(signals[0]), signals.skip(1));
    }
}

/// A course that ends without a failure has exported every relation: its
/// rows are those of all the relations, none left out.
pub proof fn lemma_course_without_failure_is_complete(start: Progress, signals: Seq<Signal>)
    requires
        start.wf(),
        start.phase != Phase::Finished,
        start.admits_all(signals),
        forall|i: int| 0 <= i < signals.len() ==> !(signals[i] is Failure),
        start.after_all(signals).phase == Phase::Finished,
    ensures
        start.after_all(signals).position == start.relations,
    decreases signals.len(),
{
    if signals.len() > 0 {
        let next = start.after(signals[0]);
        let rest = signals.skip(1);
        assert(!(signals[0] is Failure));
        assert(next.admits_all(rest));
        if next.phase == Phase::Finished {
            if rest.len() > 0 {
                assert(next.admits(rest[0]));
                assert(rest[0] == signals[1]);
            }
            assert(next.after_all(rest) == next);
        } else {
            assert forall|i: int| 0 <= i < rest.len() implies !(rest[i] is Failure) by {
                assert(rest[i] == signals[i + 1]);
            }
            lemma_course_without_failure_is_complete(next, rest);
        }
    }
}

/// The relations of one connection, and how far their export has come.
pub struct Assignment<Row> where Row: PostgresData {
    relations: Vec<Source>,
    row_type: Type,
    position: usize,
    phase: Phase,
    stream: BinaryCopyOutStream,
    marker: PhantomData<Row>,
}

impl<Row> Assignment<Row> where Row: PostgresData {
    #[verifier::type_invariant]
    spec fn inv(&self) -> bool {
        &&& self.position <= self.relations.len()
        &&& (self.phase == Phase::Opening || self.phase == Phase::Streaming) ==> self.position
            < self.relations.len()
        &&& self.phase == Phase::Streaming ==> !self.stream.finished()
    }

    /// The type that the rows are declared with.
    pub closed spec fn row_type(&self) -> Type {
        self.row_type
    }

    /// The relations of the assignment, in the order of their export.
    pub closed spec fn relations(&self) -> Seq<Source> {
        self.relations@
    }

    /// How far the assignment has come.
    pub closed spec fn progress(&self) -> Progress {
        Progress {
            phase: self.phase,
            position: self.position as nat,
            relations: self.relations.len() as nat,
        }
    }

    /// Whether the decoder of the running export has consumed the header.
    pub closed spec fn header_consumed(&self) -> bool {
        self.stream.header_consumed()
    }

    /// Whether `command` exports the columns of `Row` from a relation.
    pub open spec fn exports(source: Source, command: Seq<char>) -> bool {
        exists|columns: Seq<char>|
            Row::renders(None, columns) && command == #[trigger] copy_command(
                columns,
                source@.rendered(),
            )
    }

    /// What the driver does at this point: start the export of the relation
    /// that is next, poll the running export, or nothing.
    pub open spec fn request(&self, next: Request) -> bool {
        match self.progress().phase {
            Phase::Opening => next matches Request::Export(query) && Self::exports(
                self.relations()[self.progress().position as int],
                query@,
            ),
            Phase::Streaming => next == Request::Poll,
            _ => next == Request::Finish,
        }
    }

    /// Whether the event is one that the assignment waits for, and one that
    /// it can take: a chunk holds one value to the record.
    pub open spec fn expects(&self, event: Event) -> bool {
        match event {
            Event::Connected(_) => self.progress().phase == Phase::Connecting,
            Event::Opened(_) => self.progress().phase == Phase::Opening,
            Event::Polled(polled) => {
                &&& self.progress().phase == Phase::Streaming
                &&& polled matches Some(Ok(chunk)) ==> frame(
                    self.header_consumed(),
                    contents(chunk),
                ).single_valued()
            },
        }
    }

    /// An assignment of `relations`, before the connection is open. Its
    /// rows are declared as records.
    pub fn new(relations: Vec<Source>) -> (assignment: Assignment<Row>)
        ensures
            assignment.relations() == relations@,
            assignment.progress() == Progress::start(relations@.len()),
            is_record(assignment.row_type()),
    {
        Assignment {
            relations,
            row_type: record_type(),
            position: 0,
            phase: Phase::Connecting,
            stream: BinaryCopyOutStream::new(),
            marker: PhantomData,
        }
    }

    /// The phase that the assignment is in.
    pub fn phase(&self) -> (phase: Phase)
        ensures
            phase == self.progress().phase,
    {
        self.phase
    }

    /// Tests whether the assignment can take the event.
    pub fn check(&self, event: &Event) -> (expected: bool)
        ensures
            expected == self.expects(*event),
    {
        proof {
            use_type_invariant(self);
        }
        match event {
            Event::Connected(_) => self.phase == Phase::Connecting,
            Event::Opened(_) => self.phase == Phase::Opening,
            Event::Polled(polled) => {
                if self.phase != Phase::Streaming {
                    return false;
                }
                match polled {
                    Some(Ok(chunk)) => self.stream.check(chunk),
                    _ => true,
                }
            },
        }
    }

    /// Writes the command that exports the columns of `Row` from a relation.
    pub fn query(source: &Source) -> (command: String)
        ensures
            Self::exports(*source, command@),
    {
        let columns = Row::query(None);
        let relation = source.to_string();
        copy_query(columns.as_str(), relation.as_str())
    }

    /// The request for the point that the assignment is at.
    fn next_request(&self) -> (next: Request)
        ensures
            self.request(next),
    {
        proof {
            use_type_invariant(self);
        }
        match self.phase {
            Phase::Opening => Request::Export(Self::query(&self.relations[self.position])),
            Phase::Streaming => Request::Poll,
            _ => Request::Finish,
        }
    }

    /// Takes an event and gives the item that the stream of rows yields for
    /// it, if any, and what to do next.
    ///
    /// An open connection starts the export of the first relation, and the
    /// trailer of an export that of the next, until none is left. A chunk
    /// yields the row that its value decodes to as a record. Whatever fails
    /// yields one error and ends the assignment: a failure that the driver
    /// reports as its text, a value that does not decode as the failure of
    /// the decoding.
    pub fn step(&mut self, event: Event) -> (transition: Transition<Row>)
        requires
            old(self).expects(event),
        ensures
            final(self).relations() == old(self).relations(),
            final(self).row_type() == old(self).row_type(),
            final(self).request(transition.next),
            old(self).progress().admits(Self::signal(event, transition.item)),
            final(self).progress() == old(self).progress().after(
                Self::signal(event, transition.item),
            ),
            match event {
                Event::Connected(Ok(_)) => transition.item is None,
                Event::Opened(Ok(_)) => transition.item is None && !final(self).header_consumed(),
                Event::Connected(Err(error)) | Event::Opened(Err(error)) | Event::Polled(
                    Some(Err(error)),
                ) => transition.item matches Some(Err(got)) && got@ == RowErrorView::Postgres(
                    ErrorView::Postgres(report(error)),
                ),
                Event::Polled(None) => transition.item matches Some(Err(error)) && error@
                    == RowErrorView::Postgres(connection_closed()),
                Event::Polled(Some(Ok(chunk))) => {
                    &&& final(self).header_consumed() == header_after(
                        old(self).header_consumed(),
                        contents(chunk),
                    )
                    &&& match frame(old(self).header_consumed(), contents(chunk)).step() {
                        None => transition.item is None,
                        Some(Err(error)) => transition.item matches Some(Err(got)) && got@
                            == RowErrorView::Postgres(error),
                        Some(Ok(value)) => match transition.item {
                            Some(Ok(row)) => Row::decodes(old(self).row_type(), value, Ok(row)),
                            Some(Err(RowError::Decode(error))) => Row::decodes(
                                old(self).row_type(),
                                value,
                                Err(error@),
                            ),
                            _ => false,
                        },
                    }
                },
            },
    {
        proof {
            use_type_invariant(&*self);
        }
        let item = match event {
            Event::Connected(Ok(())) => {
                if self.position < self.relations.len() {
                    self.phase = Phase::Opening;
                } else {
                    self.phase = Phase::Finished;
                }
                None
            },
            Event::Opened(Ok(())) => {
                self.stream = BinaryCopyOutStream::new();
                self.phase = Phase::Streaming;
                None
            },
            Event::Connected(Err(error)) | Event::Opened(Err(error)) => {
                self.phase = Phase::Finished;
                Some(Err(RowError::Postgres(PostgresError::from(error))))
            },
            Event::Polled(polled) => {
                // The decoder is taken out for the call and put back after it.
                let mut stream = BinaryCopyOutStream::new();
                std::mem::swap(&mut stream, &mut self.stream);
                let item = match stream.poll_next(polled) {
                    None => {
                        if self.position + 1 < self.relations.len() {
                            self.phase = Phase::Opening;
                        } else {
                            self.phase = Phase::Finished;
                        }
                        self.position = self.position + 1;
                        None
                    },
                    Some(Err(error)) => {
                        self.phase = Phase::Finished;
                        Some(Err(RowError::Postgres(error)))
                    },
                    Some(Ok(value)) => {
                        let decoded = match &value {
                            Some(bytes) => Row::decode(&self.row_type, Some(as_slice(bytes))),
                            None => Row::decode(&self.row_type, None),
                        };
                        match decoded {
                            Ok(row) => Some(Ok(row)),
                            Err(error) => {
                                self.phase = Phase::Finished;
                                Some(Err(RowError::Decode(error)))
                            },
                        }
                    },
                };
                std::mem::swap(&mut stream, &mut self.stream);
                item
            },
        };
        let next = self.next_request();
        Transition { item, next }
    }

    /// How an event and the item that it led to bear on the course of the
    /// assignment.
    pub open spec fn signal(event: Event, item: Option<Result<Row, RowError>>) -> Signal {
        match (event, item) {
            (_, Some(Err(_))) => Signal::Failure,
            (_, Some(Ok(_))) => Signal::Row,
            (Event::Connected(_), None) => Signal::Connection,
            (Event::Opened(_), None) => Signal::Export,
            (Event::Polled(_), None) => Signal::Trailer,
        }
    }
}

/// Rows of type `Row` from the relations of any number of connections.
pub struct Postgres<Row> where Row: PostgresData {
    files: Vec<(ConnectParams, Vec<Source>)>,
    marker: PhantomData<Row>,
}

impl<Row> Postgres<Row> where Row: PostgresData {
    /// The connections and, for each, the relations to export over it.
    pub closed spec fn files(&self) -> Seq<(ConnectParams, Vec<Source>)> {
        self.files@
    }

    /// A source of the rows of `files`: for each connection, in order, the
    /// rows of its relations, in order.
    pub fn new(files: Vec<(ConnectParams, Vec<Source>)>) -> (source: Postgres<Row>)
        ensures
            source.files() == files@,
    {
        Postgres { files, marker: PhantomData }
    }

    /// Turns the source into its assignments, each with the parameters of
    /// the connection to open for it. The assignments share nothing: each
    /// can be driven wherever and whenever its driver pleases.
    pub fn assignments(self) -> (assignments: Vec<(ConnectParams, Assignment<Row>)>)
        ensures
            assignments@.len() == self.files().len(),
            forall|i: int|
                0 <= i < assignments@.len() ==> {
                    &&& (#[trigger] assignments@[i]).0 == self.files()[i].0
                    &&& assignments@[i].1.relations() == self.files()[i].1@
                    &&& assignments@[i].1.progress() == Progress::start(self.files()[i].1@.len())
                    &&& is_record(assignments@[i].1.row_type())
                },
    {
        let ghost files = self.files@;
        let mut assignments: Vec<(ConnectParams, Assignment<Row>)> = Vec::new();
        for file in it: self.files
            invariant
                it.seq() == files,
                assignments@.len() == it.index(),
                forall|i: int|
                    0 <= i < assignments@.len() ==> {
                        &&& (#[trigger] assignments@[i]).0 == files[i].0
                        &&& assignments@[i].1.relations() == files[i].1@
                        &&& assignments@[i].1.progress() == Progress::start(files[i].1@.len())
                        &&& is_record(assignments@[i].1.row_type())
                    },
        {
            let (params, relations) = file;
            assignments.push((params, Assignment::new(relations)));
        }
        assignments
    }
}

} // verus!
