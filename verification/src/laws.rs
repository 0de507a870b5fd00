//! What holds of every record and of every move of the machine: which
//! records are exported, when a file is left alone, and which pages a walk
//! asks for.

use crate::export::{export_record, wanted, Ledger};
use crate::machine::{advance, Fault, Reply, Request, Stage, State, PAGE_SIZE};
use crate::media::{extension_or_unknown, is_image_type};
use crate::naming::file_name_of;
use crate::record::{up_to_date, Content, InscriptionEntry, InscriptionId};
use crate::world::{probe, Index, Run, World};
use vstd::prelude::*;

verus! {

/// A record whose media type is not of the image family leaves the files and
/// the counters as they were: no file is created for it.
pub proof fn lemma_other_media_are_passed_over(index: Index, ledger: Ledger, id: InscriptionId)
    requires
        index.content(id) matches Some(content) ==> !is_image_type(content.media_type()),
    ensures
        export_record(index, ledger, id) == ledger,
{
}

/// The boundary between leaving a file alone and writing it. A file of the
/// record's name with exactly the declared length is left as it is, and the
/// record is counted as skipped. A missing file, or one of any other length,
/// is replaced by the record's body, and the record is counted as written
/// with its declared length; the count of skipped records stays.
pub proof fn lemma_skip_or_overwrite(index: Index, ledger: Ledger, id: InscriptionId)
    requires
        wanted(index, id) is Some,
    ensures
        ({
            let file = wanted(index, id).unwrap();
            let done = export_record(index, ledger, id);
            if probe(ledger.files, file.file_name) == Some(file.length as u64) {
                &&& done.files == ledger.files
                &&& done.tally.skipped == ledger.tally.skipped + 1
                &&& done.tally.written == ledger.tally.written
                &&& done.tally.bytes == ledger.tally.bytes
            } else {
                &&& done.files == ledger.files.insert(file.file_name, file.body)
                &&& done.tally.written == ledger.tally.written + 1
                &&& done.tally.bytes == ledger.tally.bytes + file.length
                &&& done.tally.skipped == ledger.tally.skipped
            }
        }),
{
}

/// The machine passes over a record whose media type is not of the image
/// family: it turns to the next record, asks for no file's length and writes
/// none, and leaves the counters as they were.
pub proof fn lemma_machine_passes_over_other_media(state: State, content: Content)
    requires
        state.stage is Content,
        !is_image_type(content.media_type()),
    ensures
        state.step(Reply::Content { content: Some(content) }) == Ok::<(State, Request), Fault>(
            state.next_record(),
        ),
        state.next_record().0.tally == state.tally,
        state.next_record().1 is FetchEntry || state.next_record().1 is Report,
{
}

/// The machine asks for a file's length only on the content of a record
/// whose media type is of the image family, and under the name that the
/// record's sequence number and media type give.
pub proof fn lemma_machine_probes_images_only(state: State, reply: Reply)
    requires
        state.step(reply) matches Ok(moved) && moved.1 is Probe,
    ensures
        state.stage is Content,
        reply matches Reply::Content { content: Some(content) } && {
            &&& is_image_type(content.media_type())
            &&& state.step(reply)->Ok_0.1 == Request::Probe {
                file_name: file_name_of(
                    state.stage->number as nat,
                    extension_or_unknown(content.media_type()),
                ),
            }
        },
{
}

/// The machine writes a file only for the record whose file it has just
/// probed, under the name that it probed, and only where the file found was
/// missing or not of the declared length.
pub proof fn lemma_machine_writes_after_probe(state: State, reply: Reply)
    requires
        state.step(reply) matches Ok(moved) && moved.1 is Write,
    ensures
        state.stage is Probe,
        reply is Probed,
        ({
            let wanted = state.stage->wanted;
            &&& !up_to_date(reply->existing, wanted.length)
            &&& state.step(reply)->Ok_0.1 == Request::Write {
                file_name: wanted.file_name,
                body: wanted.body,
            }
        }),
{
}

/// The machine at the boundary between leaving a file alone and writing it.
/// Told of a file of exactly the declared length, it counts the record as
/// skipped and turns to the next; told of any other length, or of no file,
/// it asks for the file to be written with the record's body, and counts the
/// record as written, with its declared length, once told that this was
/// done. The count of skipped records then stays.
pub proof fn lemma_machine_skips_or_overwrites(state: State, existing: Option<u64>)
    requires
        state.stage is Probe,
        state.tally.skip().fits(),
        state.tally.write(state.stage->wanted.length as nat).fits(),
    ensures
        ({
            let wanted = state.stage->wanted;
            let moved = state.step(Reply::Probed { existing });
            if existing == Some(wanted.length as u64) {
                moved == Ok::<(State, Request), Fault>(
                    State { tally: state.tally.skip(), ..state }.next_record(),
                )
            } else {
                &&& moved is Ok
                &&& moved->Ok_0.1 == Request::Write {
                    file_name: wanted.file_name,
                    body: wanted.body,
                }
                &&& moved->Ok_0.0.tally == state.tally
                &&& moved->Ok_0.0.step(Reply::Written) == Ok::<(State, Request), Fault>(
                    State { tally: state.tally.write(wanted.length as nat), ..state }.next_record(),
                )
            }
        }),
{
}

impl State {
    /// Whether a cursor lies within the bound of the walk.
    pub open spec fn within_bound(self, cursor: u64) -> bool {
        self.end == 0 || cursor <= self.end
    }

    /// Whether the page that the walk would ask for next lies within the
    /// bound. Nothing is asked of a walk that awaits a page or that stops
    /// after the current one.
    pub open spec fn in_range(self) -> bool {
        self.stage is Page || self.last || (self.from matches Some(cursor) && self.within_bound(
            cursor,
        ))
    }
}

/// No move leads out of the range, and a page that is asked for on a move
/// lies within the bound.
pub proof fn lemma_step_keeps_range(state: State, reply: Reply)
    requires
        state.in_range(),
    ensures
        state.step(reply) matches Ok(moved) ==> {
            &&& moved.0.in_range()
            &&& moved.0.end == state.end
            &&& moved.1 matches Request::FetchPage { limit, from } ==> {
                &&& limit == PAGE_SIZE
                &&& from matches Some(cursor)
                &&& state.within_bound(cursor)
            }
        },
{
}

/// The same of any number of moves of a run.
pub proof fn lemma_run_keeps_range(run: Run, moves: nat)
    requires
        run.state.in_range(),
        run.request matches Request::FetchPage { from, .. } ==> from matches Some(cursor)
            && run.state.within_bound(cursor),
    ensures
        ({
            let later = run.after(moves);
            &&& later.state.in_range()
            &&& later.state.end == run.state.end
            &&& later.request matches Request::FetchPage { from, .. } ==> from matches Some(cursor)
                && run.state.within_bound(cursor)
        }),
    decreases moves,
{
    if moves > 0 {
        match run.next() {
            Some(next) => {
                lemma_step_keeps_range(run.state, run.world.respond(run.request).1);
                lemma_run_keeps_range(next, (moves - 1) as nat);
            },
            None => {},
        }
    }
}

/// Range bounding. Of the pages that a run asks for, only the first, at the
/// cursor `start`, may lie beyond the bound `end`: every later one is asked
/// for at a cursor that is at most `end`, or no bound is set.
pub proof fn lemma_pages_stay_within_bound(
    image_dir: Seq<char>,
    start: u64,
    end: u64,
    world: World,
    moves: nat,
)
    ensures
        Run::begin(image_dir, start, end, world).after(moves).request matches Request::FetchPage {
            from,
            ..
        } ==> {
            ||| moves == 0 && from == Some(start)
            ||| from matches Some(cursor) && (end == 0 || cursor <= end)
        },
{
    let run = Run::begin(image_dir, start, end, world);
    if moves > 0 {
        let next = run.next().unwrap();
        lemma_step_keeps_range(run.state, run.world.respond(run.request).1);
        lemma_run_keeps_range(next, (moves - 1) as nat);
    }
}

/// Without a bound the walk goes on for as long as the index offers a
/// cursor: a page stops it only when the index offers none.
pub proof fn lemma_unbounded_walk_goes_on(state: State, ids: Seq<InscriptionId>, next: Option<u64>)
    requires
        state.stage is Page,
        state.end == 0,
    ensures
        advance(state.end, next) == next,
        state.step(Reply::Page { ids, next }) matches Ok(moved) && moved.0.last == (next is None)
            && (next is Some ==> moved.0.from == next),
{
}

/// With a bound the walk stops at the first page after which the index
/// offers no cursor or one beyond the bound. That page is still exported in
/// full.
pub proof fn lemma_bounded_walk_stops(state: State, ids: Seq<InscriptionId>, next: Option<u64>)
    requires
        state.stage is Page,
        state.end > 0,
    ensures
        state.step(Reply::Page { ids, next }) matches Ok(moved) && {
            &&& moved.0.last == (next matches Some(cursor) ==> cursor > state.end)
            &&& moved.0.page == ids
            &&& (moved.0, moved.1) == moved.0.turn_to(0)
        },
{
}

/// Pages reach back from their cursor: a record on the page at a cursor has
/// a sequence number that is at most the cursor. An index that pages by
/// sequence number, most recent first, is of this kind.
pub open spec fn pages_reach_back(index: Index) -> bool {
    forall|limit: usize, cursor: u64, k: int|
        0 <= k < index.page(limit, Some(cursor)).ids.len() ==> numbered_within(
            index,
            #[trigger] index.page(limit, Some(cursor)).ids[k],
            cursor,
        )
}

/// Whether a record has a sequence number of at most `bound`, if the index
/// has an entry for it.
pub open spec fn numbered_within(index: Index, id: InscriptionId, bound: u64) -> bool {
    index.entry(id) matches Some(entry) ==> entry.number <= bound
}

/// Whether a file name is that of a record with a sequence number of at most
/// `bound`.
pub open spec fn named_within(file_name: Seq<char>, bound: u64) -> bool {
    exists|number: u64, extension: Seq<char>|
        number <= bound && file_name == #[trigger] file_name_of(number as nat, extension)
}

/// Whether what a run asks for concerns a record with a sequence number of
/// at most `bound`: the page, the record or the file that it names.
pub open spec fn asks_within(index: Index, request: Request, bound: u64) -> bool {
    match request {
        Request::FetchPage { from, .. } => from matches Some(cursor) && cursor <= bound,
        Request::FetchEntry { id } => numbered_within(index, id, bound),
        Request::FetchContent { id } => numbered_within(index, id, bound),
        Request::Probe { file_name } => named_within(file_name, bound),
        Request::Write { file_name, .. } => named_within(file_name, bound),
        Request::Report { .. } => true,
        Request::Finish { .. } => true,
    }
}

/// What holds at every moment of a run whose start lies within its bound,
/// against an index whose pages reach back.
pub open spec fn stays_within(run: Run, bound: u64) -> bool {
    let state = run.state;
    let index = run.world.index;
    &&& bound > 0
    &&& state.end == bound
    &&& state.position <= state.page.len()
    &&& state.from matches Some(cursor) && cursor <= bound
    &&& forall|k: int|
        0 <= k < state.page.len() ==> numbered_within(index, #[trigger] state.page[k], bound)
    &&& asks_within(index, run.request, bound)
    &&& match state.stage {
        Stage::Page => run.request == Request::FetchPage { limit: PAGE_SIZE, from: state.from },
        Stage::Entry => state.position < state.page.len() && run.request == (Request::FetchEntry {
            id: state.page[state.position as int],
        }),
        Stage::Content { number } => {
            &&& state.position < state.page.len()
            &&& run.request == Request::FetchContent { id: state.page[state.position as int] }
            &&& index.entry(state.page[state.position as int]) == Some(
                InscriptionEntry { number },
            )
        },
        Stage::Probe { wanted } => {
            &&& state.position < state.page.len()
            &&& run.request == Request::Probe { file_name: wanted.file_name }
        },
        Stage::Write { .. } => state.position < state.page.len() && run.request is Write,
        Stage::Report => run.request is Report,
        Stage::Finished => run.request is Finish,
    }
}

/// No move leads beyond the bound.
pub proof fn lemma_move_stays_within(run: Run, bound: u64)
    requires
        pages_reach_back(run.world.index),
        stays_within(run, bound),
    ensures
        run.next() matches Some(next) ==> stays_within(next, bound) && next.world.index
            == run.world.index,
{
    let state = run.state;
    let index = run.world.index;
    if run.next() is Some {
        let next = run.next().unwrap();
        match state.stage {
            Stage::Page => {
                let page = index.page(PAGE_SIZE, state.from);
                assert forall|k: int| 0 <= k < page.ids.len() implies numbered_within(
                    index,
                    #[trigger] page.ids[k],
                    bound,
                ) by {
                    assert(numbered_within(
                        index,
                        index.page(PAGE_SIZE, Some(state.from.unwrap())).ids[k],
                        state.from.unwrap(),
                    ));
                }
                assert(next.state.page == page.ids);
            },
            Stage::Content { number } => {
                if next.request is Probe {
                    let content = index.content(state.page[state.position as int]).unwrap();
                    assert(next.request->Probe_file_name == file_name_of(
                        number as nat,
                        extension_or_unknown(content.media_type()),
                    ));
                }
            },
            _ => {},
        }
    }
}

/// The same of any number of moves.
pub proof fn lemma_run_stays_within(run: Run, bound: u64, moves: nat)
    requires
        pages_reach_back(run.world.index),
        stays_within(run, bound),
    ensures
        stays_within(run.after(moves), bound),
    decreases moves,
{
    if moves > 0 {
        lemma_move_stays_within(run, bound);
        match run.next() {
            Some(next) => lemma_run_stays_within(next, bound, (moves - 1) as nat),
            None => {},
        }
    }
}

/// Range bounding, by records. Against an index whose pages reach back, a
/// run that starts within its bound never asks for a page, a record or a
/// file beyond the bound: every entry and every content that it fetches is
/// that of a record numbered at most `end`, and every file that it probes or
/// writes is named after such a number.
pub proof fn lemma_run_stays_within_bound(
    image_dir: Seq<char>,
    start: u64,
    end: u64,
    world: World,
    moves: nat,
)
    requires
        pages_reach_back(world.index),
        0 < end,
        start <= end,
    ensures
        asks_within(
            world.index,
            Run::begin(image_dir, start, end, world).after(moves).request,
            end,
        ),
{
    let run = Run::begin(image_dir, start, end, world);
    lemma_run_stays_within(run, end, moves);
    lemma_run_keeps_index(run, moves);
}

/// A run reads the index and leaves it as it is.
pub proof fn lemma_run_keeps_index(run: Run, moves: nat)
    ensures
        run.after(moves).world.index == run.world.index,
    decreases moves,
{
    if moves > 0 {
        match run.next() {
            Some(next) => lemma_run_keeps_index(next, (moves - 1) as nat),
            None => {},
        }
    }
}

} // verus!
