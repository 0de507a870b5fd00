//! The outside world as the run sees it: an index that answers lookups and a
//! directory of files. A run is the machine's moves against the world's
//! honest answers.

use crate::machine::{Reply, Request, State};
use crate::record::{Content, InscriptionEntry, InscriptionId};
use vstd::prelude::*;

verus! {

/// One page of the index: identifiers, and the cursor to go on from.
pub struct Page {
    pub ids: Seq<InscriptionId>,
    pub next: Option<u64>,
}

/// The index: its answer to each page request, and the entry and the content
/// of each record that it knows.
pub struct Index {
    pub pages: Map<(usize, Option<u64>), Page>,
    pub entries: Map<InscriptionId, InscriptionEntry>,
    pub contents: Map<InscriptionId, Content>,
}

impl Index {
    /// The page of up to `limit` identifiers at cursor `from`. Where the index
    /// has nothing to say, the page is empty and no cursor follows.
    pub open spec fn page(self, limit: usize, from: Option<u64>) -> Page {
        if self.pages.dom().contains((limit, from)) {
            self.pages[(limit, from)]
        } else {
            Page { ids: Seq::empty(), next: None }
        }
    }

    /// The entry of a record, if the index has one.
    pub open spec fn entry(self, id: InscriptionId) -> Option<InscriptionEntry> {
        if self.entries.dom().contains(id) {
            Some(self.entries[id])
        } else {
            None
        }
    }

    /// The content of a record, if the index has it.
    pub open spec fn content(self, id: InscriptionId) -> Option<Content> {
        if self.contents.dom().contains(id) {
            Some(self.contents[id])
        } else {
            None
        }
    }
}

/// The files of the output directory, by name.
pub type Files = Map<Seq<char>, Seq<u8>>;

/// The length of the file of a name, if there is one.
pub open spec fn probe(files: Files, file_name: Seq<char>) -> Option<u64> {
    if files.dom().contains(file_name) {
        Some(files[file_name].len() as u64)
    } else {
        None
    }
}

/// The index and the output directory.
pub struct World {
    pub index: Index,
    pub files: Files,
}

impl World {
    /// What the world answers to a request, and what it is afterwards. Only
    /// writing a file changes it.
    pub open spec fn respond(self, request: Request) -> (World, Reply) {
        match request {
            Request::FetchPage { limit, from } => {
                let page = self.index.page(limit, from);
                (self, Reply::Page { ids: page.ids, next: page.next })
            },
            Request::FetchEntry { id } => (self, Reply::Entry { entry: self.index.entry(id) }),
            Request::FetchContent { id } => (
                self,
                Reply::Content { content: self.index.content(id) },
            ),
            Request::Probe { file_name } => (
                self,
                Reply::Probed { existing: probe(self.files, file_name) },
            ),
            Request::Write { file_name, body } => (
                World { files: self.files.insert(file_name, body), ..self },
                Reply::Written,
            ),
            Request::Report { .. } => (self, Reply::Reported),
            Request::Finish { .. } => (self, Reply::Reported),
        }
    }
}

/// A run at one moment: the machine's state, the request that it has made,
/// and the world that is about to answer.
pub struct Run {
    pub state: State,
    pub request: Request,
    pub world: World,
}

impl Run {
    /// The moment at which a run over `[start, end]` begins.
    pub open spec fn begin(image_dir: Seq<char>, start: u64, end: u64, world: World) -> Run {
        Run {
            state: State::initial(image_dir, start, end),
            request: State::first_request(start),
            world,
        }
    }

    /// Whether the run is over.
    pub open spec fn finished(self) -> bool {
        self.request is Finish
    }

    /// The next moment: the world answers and the machine moves. There is
    /// none when the run is over, and none when the machine refuses the
    /// answer.
    pub open spec fn next(self) -> Option<Run> {
        if self.finished() {
            None
        } else {
            let (world, reply) = self.world.respond(self.request);
            match self.state.step(reply) {
                Ok((state, request)) => Some(Run { state, request, world }),
                Err(_) => None,
            }
        }
    }

    /// The moment that is reached after `steps` moves, or earlier where no
    /// next moment exists.
    pub open spec fn after(self, steps: nat) -> Run
        decreases steps,
    {
        if steps == 0 {
            self
        } else {
            match self.next() {
                Some(next) => next.after((steps - 1) as nat),
                None => self,
            }
        }
    }
}

/// Moves add up: going on for `more` moves from where `steps` moves led is
/// the same as making `steps + more` moves.
pub proof fn lemma_after_add(run: Run, steps: nat, more: nat)
    ensures
        run.after(steps + more) == run.after(steps).after(more),
    decreases steps,
{
    if steps > 0 {
        match run.next() {
            Some(next) => {
                lemma_after_add(next, (steps - 1) as nat, more);
                assert((steps + more - 1) as nat == (steps - 1) as nat + more);
            },
            None => {
                assert(run.after(more) == run) by {
                    if more > 0 {
                    }
                }
            },
        }
    }
}

/// A run that is over stays as it is.
pub proof fn lemma_finished_run_stays(run: Run, moves: nat)
    requires
        run.finished(),
    ensures
        run.after(moves) == run,
{
    if moves > 0 {
        assert(run.next() is None);
    }
}

/// A run ends in one way only: whenever it is over, after however many
/// moves, it is at the same moment.
pub proof fn lemma_run_ends_in_one_way(run: Run, moves: nat, other: nat)
    requires
        run.after(moves).finished(),
        run.after(other).finished(),
    ensures
        run.after(moves) == run.after(other),
{
    if moves <= other {
        lemma_after_add(run, moves, (other - moves) as nat);
        lemma_finished_run_stays(run.after(moves), (other - moves) as nat);
    } else {
        lemma_after_add(run, other, (moves - other) as nat);
        lemma_finished_run_stays(run.after(other), (moves - other) as nat);
    }
}

} // verus!
