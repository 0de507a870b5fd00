//! The run in executable form: a context that takes each answer of the
//! outside world and hands back the next request.

use crate::machine::{Fault, Reply, Request, Stage, State, PAGE_SIZE};
use crate::record::{Export, Inscription, InscriptionEntry, InscriptionId};
use crate::stats::Stats;
use vstd::prelude::*;

verus! {

/// A request to the outside world.
#[derive(Debug)]
pub enum Action {
    /// Ask the index for up to `limit` identifiers at cursor `from`.
    FetchPage { limit: usize, from: Option<u64> },
    /// Ask the index for the entry of a record.
    FetchEntry { id: InscriptionId },
    /// Ask the index for the content of a record.
    FetchContent { id: InscriptionId },
    /// Make sure that the output directory exists, and tell the length of the
    /// file of that name in it, if there is one.
    Probe { file_name: String },
    /// Create or replace the file of that name with these bytes.
    Write { file_name: String, body: Vec<u8> },
    /// Print the progress line of a page.
    Report { cursor: u64, got: usize },
    /// Print the summary; the run is over.
    Finish { stats: Stats },
}

impl View for Action {
    type V = Request;

    open spec fn view(&self) -> Request {
        match *self {
            Action::FetchPage { limit, from } => Request::FetchPage { limit, from },
            Action::FetchEntry { id } => Request::FetchEntry { id },
            Action::FetchContent { id } => Request::FetchContent { id },
            Action::Probe { file_name } => Request::Probe { file_name: file_name@ },
            Action::Write { file_name, body } => Request::Write {
                file_name: file_name@,
                body: body@,
            },
            Action::Report { cursor, got } => Request::Report { cursor, got: got as nat },
            Action::Finish { stats } => Request::Finish { tally: stats@ },
        }
    }
}

/// An answer of the outside world.
#[derive(Debug)]
pub enum Event {
    /// A page of identifiers, and the cursor to go on from, if there is one.
    Page { ids: Vec<InscriptionId>, next: Option<u64> },
    /// The entry of a record, if the index has one.
    Entry(Option<InscriptionEntry>),
    /// The content of a record, if the index has it.
    Content(Option<Inscription>),
    /// The length of the file that was found, if one was.
    Probed(Option<u64>),
    /// The file was written.
    Written,
    /// The progress line was printed.
    Reported,
}

impl View for Event {
    type V = Reply;

    open spec fn view(&self) -> Reply {
        match *self {
            Event::Page { ids, next } => Reply::Page { ids: ids@, next },
            Event::Entry(entry) => Reply::Entry { entry },
            Event::Content(content) => Reply::Content {
                content: match content {
                    Some(inscription) => Some(inscription@),
                    None => None,
                },
            },
            Event::Probed(existing) => Reply::Probed { existing },
            Event::Written => Reply::Written,
            Event::Reported => Reply::Reported,
        }
    }
}

/// What a context waits for.
#[derive(Clone, Copy, Debug, PartialEq, Eq, Structural)]
enum Phase {
    Page,
    Entry,
    Content,
    Probe,
    Write,
    Report,
    Finished,
}

/// A run in progress.
#[derive(Debug)]
pub struct Context {
    image_dir: String,
    start: u64,
    end: u64,
    from: Option<u64>,
    last: bool,
    page: Vec<InscriptionId>,
    position: usize,
    stats: Stats,
    phase: Phase,
    /// The sequence number of the current record, while its content is awaited.
    number: u64,
    /// The file of the current record, while its probe is awaited.
    export: Option<Export>,
    /// The declared length of the current record, while its writing is awaited.
    length: usize,
}

impl View for Context {
    type V = State;

    closed spec fn view(&self) -> State {
        State {
            image_dir: self.image_dir@,
            start: self.start,
            end: self.end,
            from: self.from,
            last: self.last,
            page: self.page@,
            position: self.position as nat,
            tally: self.stats@,
            stage: match self.phase {
                Phase::Page => Stage::Page,
                Phase::Entry => Stage::Entry,
                Phase::Content => Stage::Content { number: self.number },
                Phase::Probe => Stage::Probe { wanted: self.export.unwrap()@ },
                Phase::Write => Stage::Write { length: self.length },
                Phase::Report => Stage::Report,
                Phase::Finished => Stage::Finished,
            },
        }
    }
}

impl Context {
    /// What holds of every context that this library hands out.
    pub closed spec fn wf(&self) -> bool {
        &&& self@.wf()
        &&& self.phase == Phase::Probe ==> self.export is Some
    }

    /// A well-formed context stands for a well-formed state.
    pub proof fn lemma_wf(&self)
        requires
            self.wf(),
        ensures
            self@.wf(),
    {
    }

    /// The output directory, under which the files of `Probe` and `Write`
    /// requests are meant.
    pub fn image_dir(&self) -> (image_dir: &str)
        ensures
            image_dir@ == self@.image_dir,
    {
        self.image_dir.as_str()
    }

    /// The counters as they stand.
    pub fn stats(&self) -> (stats: Stats)
        ensures
            stats@ == self@.tally,
    {
        self.stats
    }

    /// Whether the run is over.
    pub fn is_finished(&self) -> (finished: bool)
        ensures
            finished == (self@.stage is Finished),
    {
        self.phase == Phase::Finished
    }

    /// Turns to the record at `position` of the current page, or to the
    /// page's progress line when the page has no such record.
    fn turn_to(&mut self, position: usize) -> (action: Action)
        ensures
            (final(self)@, action@) == old(self)@.turn_to(position as nat),
            final(self).wf(),
    {
        if position < self.page.len() {
            self.position = position;
            self.phase = Phase::Entry;
            Action::FetchEntry { id: self.page[position] }
        } else {
            self.position = self.page.len();
            self.phase = Phase::Report;
            Action::Report { cursor: self.from.unwrap_or(0), got: self.page.len() }
        }
    }

    /// Leaves the current record and turns to the next.
    fn next_record(&mut self) -> (action: Action)
        requires
            old(self).position < old(self).page@.len(),
        ensures
            (final(self)@, action@) == old(self)@.next_record(),
            final(self).wf(),
    {
        let len = self.page.len();
        assert(self.position < len);
        let position = self.position + 1;
        self.turn_to(position)
    }

    /// Begins a walk from cursor `start` up to the bound `end` (zero: no
    /// bound), with the counters at zero, and asks for its first page.
    pub fn begin(&mut self, start: u64, end: u64) -> (action: Action)
        ensures
            final(self)@ == State::initial(old(self)@.image_dir, start, end),
            action@ == State::first_request(start),
            final(self).wf(),
    {
        self.start = start;
        self.end = end;
        self.from = Some(start);
        self.last = false;
        self.page = Vec::new();
        self.position = 0;
        self.stats = Stats::new();
        self.phase = Phase::Page;
        Action::FetchPage { limit: PAGE_SIZE, from: Some(start) }
    }

    /// The paginator. On a page of identifiers it fixes the cursor to go on
    /// from and whether the walk stops after this page, then turns to the
    /// page's first record: a page is exported in full whatever was fixed. On
    /// a printed progress line it asks for the next page or finishes. Any
    /// other answer, and one that is not awaited, is refused and changes
    /// nothing.
    pub fn process_inscriptions(&mut self, event: Event) -> (next: Result<Action, Fault>)
        requires
            old(self).wf(),
        ensures
            final(self).wf(),
            match old(self)@.paginate(event@) {
                Ok((state, request)) => next is Ok && next->Ok_0@ == request && final(self)@
                    == state,
                Err(fault) => next is Err && next->Err_0 == fault && final(self)@ == old(self)@,
            },
    {
        match event {
            Event::Page { ids, next } => {
                if self.phase != Phase::Page {
                    return Err(Fault::Unexpected);
                }
                match next {
                    Some(cursor) => {
                        if self.end > 0 && cursor > self.end {
                            self.last = true;
                        } else {
                            self.from = Some(cursor);
                            self.last = false;
                        }
                    },
                    None => {
                        self.last = true;
                    },
                }
                self.page = ids;
                Ok(self.turn_to(0))
            },
            Event::Reported => {
                if self.phase != Phase::Report {
                    return Err(Fault::Unexpected);
                }
                if self.last {
                    self.phase = Phase::Finished;
                    Ok(Action::Finish { stats: self.stats })
                } else {
                    self.phase = Phase::Page;
                    Ok(Action::FetchPage { limit: PAGE_SIZE, from: self.from })
                }
            },
            _ => Err(Fault::Unexpected),
        }
    }

    /// The exporter, on the current record. A record without an entry or
    /// without content is passed over, and so is one whose media type is not
    /// of the image family. For the others the file's length is asked for:
    /// a file of exactly the declared length is left alone and counted as
    /// skipped; otherwise the file is written, and counted once that is
    /// done, with the declared length. An answer that is not awaited is
    /// refused, and so is one that a counter cannot take; both change nothing.
    pub fn process(&mut self, event: Event) -> (next: Result<Action, Fault>)
        requires
            old(self).wf(),
        ensures
            final(self).wf(),
            match old(self)@.export(event@) {
                Ok((state, request)) => next is Ok && next->Ok_0@ == request && final(self)@
                    == state,
                Err(fault) => next is Err && next->Err_0 == fault && final(self)@ == old(self)@,
            },
    {
        match event {
            Event::Entry(entry) => {
                if self.phase != Phase::Entry {
                    return Err(Fault::Unexpected);
                }
                match entry {
                    Some(entry) => {
                        self.number = entry.number;
                        self.phase = Phase::Content;
                        Ok(Action::FetchContent { id: self.page[self.position] })
                    },
                    None => Ok(self.next_record()),
                }
            },
            Event::Content(content) => {
                if self.phase != Phase::Content {
                    return Err(Fault::Unexpected);
                }
                let entry = InscriptionEntry { number: self.number };
                let planned = match content {
                    Some(inscription) => Export::plan(&entry, inscription),
                    None => None,
                };
                match planned {
                    Some(export) => {
                        let file_name = export.file_name.clone();
                        self.export = Some(export);
                        self.phase = Phase::Probe;
                        Ok(Action::Probe { file_name })
                    },
                    None => Ok(self.next_record()),
                }
            },
            Event::Probed(existing) => {
                if self.phase != Phase::Probe {
                    return Err(Fault::Unexpected);
                }
                let unchanged = match &self.export {
                    Some(export) => export.is_up_to_date(existing),
                    None => false,
                };
                if unchanged {
                    if !self.stats.record_skipped() {
                        return Err(Fault::Overflow);
                    }
                    self.export = None;
                    Ok(self.next_record())
                } else {
                    match self.export.take() {
                        Some(export) => {
                            self.length = export.length;
                            self.phase = Phase::Write;
                            Ok(Action::Write { file_name: export.file_name, body: export.body })
                        },
                        None => Err(Fault::Unexpected),
                    }
                }
            },
            Event::Written => {
                if self.phase != Phase::Write {
                    return Err(Fault::Unexpected);
                }
                if !self.stats.record_written(self.length) {
                    return Err(Fault::Overflow);
                }
                Ok(self.next_record())
            },
            _ => Err(Fault::Unexpected),
        }
    }

    /// Takes an answer of the outside world and hands back the next request:
    /// the paginator's on a page or a printed progress line, the exporter's
    /// on anything else.
    pub fn step(&mut self, event: Event) -> (next: Result<Action, Fault>)
        requires
            old(self).wf(),
        ensures
            final(self).wf(),
            match old(self)@.step(event@) {
                Ok((state, request)) => next is Ok && next->Ok_0@ == request && final(self)@
                    == state,
                Err(fault) => next is Err && next->Err_0 == fault && final(self)@ == old(self)@,
            },
    {
        match event {
            Event::Page { .. } => self.process_inscriptions(event),
            Event::Reported => self.process_inscriptions(event),
            _ => self.process(event),
        }
    }
}

/// A context for runs that write below `image_dir`, ready to walk the whole
/// index from cursor zero.
pub fn new_context(image_dir: String) -> (context: Context)
    ensures
        context@ == State::initial(image_dir@, 0, 0),
        context.wf(),
{
    Context {
        image_dir,
        start: 0,
        end: 0,
        from: Some(0),
        last: false,
        page: Vec::new(),
        position: 0,
        stats: Stats::new(),
        phase: Phase::Page,
        number: 0,
        export: None,
        length: 0,
    }
}

/// The command: where to put the images, and the range of cursors to walk.
#[derive(Clone, Debug, PartialEq, Eq)]
pub struct ImgDump {
    /// The output directory.
    pub image_dir: String,
    /// The cursor to start with.
    pub start: u64,
    /// The cursor to end with; zero for no bound.
    pub end: u64,
}

impl ImgDump {
    /// Starts the run: the context that carries it, and its first request.
    pub fn run(self) -> (begun: (Context, Action))
        ensures
            begun.0@ == State::initial(self.image_dir@, self.start, self.end),
            begun.1@ == State::first_request(self.start),
            begun.0.wf(),
    {
        let mut context = new_context(self.image_dir);
        let action = context.begin(self.start, self.end);
        (context, action)
    }
}

} // verus!
