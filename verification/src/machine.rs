//! The run as a state machine over plain values: what is asked of the outside
//! world next, given what it answered last.

use crate::record::{target, up_to_date, Content, InscriptionEntry, InscriptionId, Target};
use crate::stats::Tally;
use vstd::prelude::*;

verus! {

/// The number of identifiers asked for in one page.
pub const PAGE_SIZE: usize = 100;

/// What the machine waits for.
pub enum Stage {
    /// A page of identifiers.
    Page,
    /// The entry of the record at the current position.
    Entry,
    /// The content of that record, whose sequence number is known.
    Content { number: u64 },
    /// The length of the file that may already stand for the record.
    Probe { wanted: Target },
    /// The writing of the record's file.
    Write { length: usize },
    /// The printing of the page's progress line.
    Report,
    /// Nothing: the run is over.
    Finished,
}

/// The state of a run.
pub struct State {
    /// The output directory.
    pub image_dir: Seq<char>,
    /// The cursor at which the walk began.
    pub start: u64,
    /// The upper bound of the walk; zero for none.
    pub end: u64,
    /// The cursor of the next page, or of the current one when no page follows.
    pub from: Option<u64>,
    /// Whether the walk stops after the current page.
    pub last: bool,
    /// The identifiers of the current page.
    pub page: Seq<InscriptionId>,
    /// How many of them are done.
    pub position: nat,
    /// The counters.
    pub tally: Tally,
    /// What is awaited.
    pub stage: Stage,
}

/// A request to the outside world.
pub enum Request {
    /// Ask the index for up to `limit` identifiers at cursor `from`.
    FetchPage { limit: usize, from: Option<u64> },
    /// Ask the index for the entry of a record.
    FetchEntry { id: InscriptionId },
    /// Ask the index for the content of a record.
    FetchContent { id: InscriptionId },
    /// Make sure that the output directory exists, and tell the length of the
    /// file of that name in it, if there is one.
    Probe { file_name: Seq<char> },
    /// Create or replace the file of that name with these bytes.
    Write { file_name: Seq<char>, body: Seq<u8> },
    /// Print the progress line of a page.
    Report { cursor: u64, got: nat },
    /// Print the summary; the run is over.
    Finish { tally: Tally },
}

/// An answer of the outside world.
pub enum Reply {
    /// A page of identifiers, and the cursor to go on from, if there is one.
    Page { ids: Seq<InscriptionId>, next: Option<u64> },
    /// The entry of a record, if the index has one.
    Entry { entry: Option<InscriptionEntry> },
    /// The content of a record, if the index has it.
    Content { content: Option<Content> },
    /// The length of the file that was found, if one was.
    Probed { existing: Option<u64> },
    /// The file was written.
    Written,
    /// The progress line was printed.
    Reported,
}

/// Why the machine refuses an answer.
#[derive(Clone, Copy, Debug, PartialEq, Eq, Structural)]
pub enum Fault {
    /// The answer is not the one that the machine waits for.
    Unexpected,
    /// A counter cannot hold the result.
    Overflow,
}

/// The cursor to go on from after a page, given the one that the index
/// offers: none when the index offers none, and none when a bound is set and
/// the offered cursor lies beyond it.
pub open spec fn advance(end: u64, next: Option<u64>) -> Option<u64> {
    match next {
        Some(cursor) => if end > 0 && cursor > end {
            None
        } else {
            Some(cursor)
        },
        None => None,
    }
}

impl State {
    /// The state in which a run begins.
    pub open spec fn initial(image_dir: Seq<char>, start: u64, end: u64) -> State {
        State {
            image_dir,
            start,
            end,
            from: Some(start),
            last: false,
            page: Seq::empty(),
            position: 0,
            tally: Tally::zero(),
            stage: Stage::Page,
        }
    }

    /// The request with which a run begins.
    pub open spec fn first_request(start: u64) -> Request {
        Request::FetchPage { limit: PAGE_SIZE, from: Some(start) }
    }

    /// What holds of the state of every run.
    pub open spec fn wf(self) -> bool {
        &&& self.position <= self.page.len()
        &&& self.page.len() <= usize::MAX
        &&& self.tally.fits()
        &&& match self.stage {
            Stage::Page => true,
            Stage::Report => self.position == self.page.len(),
            Stage::Finished => true,
            _ => self.position < self.page.len(),
        }
    }

    /// Turns to the record at `position` of the current page, or to the
    /// page's progress line when the page has no such record.
    pub open spec fn turn_to(self, position: nat) -> (State, Request) {
        if position < self.page.len() {
            (
                State { position, stage: Stage::Entry, ..self },
                Request::FetchEntry { id: self.page[position as int] },
            )
        } else {
            (
                State { position: self.page.len(), stage: Stage::Report, ..self },
                Request::Report {
                    cursor: match self.from {
                        Some(cursor) => cursor,
                        None => 0,
                    },
                    got: self.page.len(),
                },
            )
        }
    }

    /// Leaves the current record and turns to the next.
    pub open spec fn next_record(self) -> (State, Request) {
        self.turn_to(self.position + 1)
    }

    /// The paginator's move: on a page, fix the cursor and whether the walk
    /// goes on, and turn to the page's first record, whatever was fixed; on a
    /// printed progress line, ask for the next page or finish.
    pub open spec fn paginate(self, reply: Reply) -> Result<(State, Request), Fault> {
        match (self.stage, reply) {
            (Stage::Page, Reply::Page { ids, next }) => {
                let onward = advance(self.end, next);
                Ok(
                    State {
                        from: if onward is Some {
                            onward
                        } else {
                            self.from
                        },
                        last: onward is None,
                        page: ids,
                        ..self
                    }.turn_to(0),
                )
            },
            (Stage::Report, Reply::Reported) => {
                if self.last {
                    Ok(
                        (
                            State { stage: Stage::Finished, ..self },
                            Request::Finish { tally: self.tally },
                        ),
                    )
                } else {
                    Ok(
                        (
                            State { stage: Stage::Page, ..self },
                            Request::FetchPage { limit: PAGE_SIZE, from: self.from },
                        ),
                    )
                }
            },
            _ => Err(Fault::Unexpected),
        }
    }

    /// The exporter's move on the current record.
    pub open spec fn export(self, reply: Reply) -> Result<(State, Request), Fault> {
        match (self.stage, reply) {
            (Stage::Entry, Reply::Entry { entry }) => match entry {
                Some(entry) => Ok(
                    (
                        State { stage: Stage::Content { number: entry.number }, ..self },
                        Request::FetchContent { id: self.page[self.position as int] },
                    ),
                ),
                None => Ok(self.next_record()),
            },
            (Stage::Content { number }, Reply::Content { content }) => match content {
                Some(content) => match target(number, content) {
                    Some(wanted) => Ok(
                        (
                            State { stage: Stage::Probe { wanted }, ..self },
                            Request::Probe { file_name: wanted.file_name },
                        ),
                    ),
                    None => Ok(self.next_record()),
                },
                None => Ok(self.next_record()),
            },
            (Stage::Probe { wanted }, Reply::Probed { existing }) => {
                if up_to_date(existing, wanted.length) {
                    if self.tally.skip().fits() {
                        Ok(State { tally: self.tally.skip(), ..self }.next_record())
                    } else {
                        Err(Fault::Overflow)
                    }
                } else {
                    Ok(
                        (
                            State { stage: Stage::Write { length: wanted.length }, ..self },
                            Request::Write { file_name: wanted.file_name, body: wanted.body },
                        ),
                    )
                }
            },
            (Stage::Write { length }, Reply::Written) => {
                if self.tally.write(length as nat).fits() {
                    Ok(State { tally: self.tally.write(length as nat), ..self }.next_record())
                } else {
                    Err(Fault::Overflow)
                }
            },
            _ => Err(Fault::Unexpected),
        }
    }

    /// The machine's move on an answer: the paginator's on a page or a
    /// printed progress line, the exporter's on anything else.
    pub open spec fn step(self, reply: Reply) -> Result<(State, Request), Fault> {
        match reply {
            Reply::Page { .. } | Reply::Reported => self.paginate(reply),
            _ => self.export(reply),
        }
    }
}

/// Every move keeps the state well formed.
pub proof fn lemma_step_keeps_wf(state: State, reply: Reply)
    requires
        state.wf(),
        reply is Page ==> reply->ids.len() <= usize::MAX,
    ensures
        state.step(reply) matches Ok(after) ==> after.0.wf(),
{
}

} // verus!
