//! The machine against the world's honest answers does what the plain
//! account of a run says: record by record, page by page, walk by walk.

use crate::export::{export_from, export_record, export_walk, Ledger};
use crate::machine::{advance, Request, State, PAGE_SIZE};
use crate::record::{target, up_to_date, InscriptionId};
use crate::stats::Tally;
use crate::world::{lemma_after_add, probe, Files, Index, Run, World};
use vstd::prelude::*;

verus! {

/// A tally is at least another, counter by counter.
pub open spec fn at_least(later: Tally, earlier: Tally) -> bool {
    &&& later.written >= earlier.written
    &&& later.skipped >= earlier.skipped
    &&& later.bytes >= earlier.bytes
}

/// The number of moves that the machine makes on one record.
pub open spec fn record_moves(index: Index, files: Files, id: InscriptionId) -> nat {
    match index.entry(id) {
        Some(entry) => match index.content(id) {
            Some(content) => match target(entry.number, content) {
                Some(file) => if up_to_date(probe(files, file.file_name), file.length) {
                    3
                } else {
                    4
                },
                None => 2,
            },
            None => 2,
        },
        None => 1,
    }
}

/// The number of moves that the machine makes on the records of a page from
/// `position` on.
pub open spec fn moves_from(
    index: Index,
    ledger: Ledger,
    ids: Seq<InscriptionId>,
    position: nat,
) -> nat
    decreases ids.len() - position,
{
    if position >= ids.len() {
        0
    } else {
        record_moves(index, ledger.files, ids[position as int]) + moves_from(
            index,
            export_record(index, ledger, ids[position as int]),
            ids,
            position + 1,
        )
    }
}

/// The number of moves that the machine makes on a walk of at most `pages`
/// pages: on each page one to take it, those on its records, and one to have
/// its progress line printed.
pub open spec fn walk_moves(
    index: Index,
    end: u64,
    from: Option<u64>,
    ledger: Ledger,
    pages: nat,
) -> nat
    decreases pages,
{
    if pages == 0 {
        0
    } else {
        let page = index.page(PAGE_SIZE, from);
        let done = export_from(index, ledger, page.ids, 0);
        2 + moves_from(index, ledger, page.ids, 0) + match advance(end, page.next) {
            Some(cursor) => walk_moves(index, end, Some(cursor), done, (pages - 1) as nat),
            None => 0,
        }
    }
}

/// Counters never go down over the records of a page.
pub proof fn lemma_tally_grows_from(
    index: Index,
    ledger: Ledger,
    ids: Seq<InscriptionId>,
    position: nat,
)
    ensures
        at_least(export_from(index, ledger, ids, position).tally, ledger.tally),
    decreases ids.len() - position,
{
    if position < ids.len() {
        lemma_tally_grows_from(
            index,
            export_record(index, ledger, ids[position as int]),
            ids,
            position + 1,
        );
    }
}

/// Counters never go down over a walk.
pub proof fn lemma_tally_grows_walk(
    index: Index,
    end: u64,
    from: Option<u64>,
    ledger: Ledger,
    pages: nat,
)
    ensures
        export_walk(index, end, from, ledger, pages) matches Some(done) ==> at_least(
            done.tally,
            ledger.tally,
        ),
    decreases pages,
{
    if pages > 0 {
        let page = index.page(PAGE_SIZE, from);
        let done = export_from(index, ledger, page.ids, 0);
        lemma_tally_grows_from(index, ledger, page.ids, 0);
        match advance(end, page.next) {
            Some(cursor) => lemma_tally_grows_walk(
                index,
                end,
                Some(cursor),
                done,
                (pages - 1) as nat,
            ),
            None => {},
        }
    }
}

/// On one record the machine does what `export_record` says, and then turns
/// to the next record.
pub proof fn lemma_record(run: Run, base: State, position: nat)
    requires
        position < base.page.len(),
        (run.state, run.request) == base.turn_to(position),
        export_record(
            run.world.index,
            Ledger { files: run.world.files, tally: base.tally },
            base.page[position as int],
        ).tally.fits(),
    ensures
        ({
            let id = base.page[position as int];
            let done = export_record(
                run.world.index,
                Ledger { files: run.world.files, tally: base.tally },
                id,
            );
            let turned = State { tally: done.tally, ..base }.turn_to(position + 1);
            run.after(record_moves(run.world.index, run.world.files, id)) == Run {
                state: turned.0,
                request: turned.1,
                world: World { files: done.files, ..run.world },
            }
        }),
{
    reveal_with_fuel(Run::after, 5);
    let index = run.world.index;
    let id = base.page[position as int];
    let first = run.next();
    assert(first is Some);
    match index.entry(id) {
        Some(entry) => {
            let second = first.unwrap().next();
            assert(second is Some);
            match index.content(id) {
                Some(content) => match target(entry.number, content) {
                    Some(file) => {
                        let third = second.unwrap().next();
                        assert(third is Some);
                        if !up_to_date(probe(run.world.files, file.file_name), file.length) {
                            let fourth = third.unwrap().next();
                            assert(fourth is Some);
                        }
                    },
                    None => {},
                },
                None => {},
            }
        },
        None => {},
    }
}

/// On the records of a page from `position` on, the machine does what
/// `export_from` says, and then turns to the page's progress line.
pub proof fn lemma_page(run: Run, base: State, position: nat)
    requires
        position <= base.page.len(),
        (run.state, run.request) == base.turn_to(position),
        export_from(
            run.world.index,
            Ledger { files: run.world.files, tally: base.tally },
            base.page,
            position,
        ).tally.fits(),
    ensures
        ({
            let ledger = Ledger { files: run.world.files, tally: base.tally };
            let done = export_from(run.world.index, ledger, base.page, position);
            let turned = State { tally: done.tally, ..base }.turn_to(base.page.len());
            run.after(moves_from(run.world.index, ledger, base.page, position)) == Run {
                state: turned.0,
                request: turned.1,
                world: World { files: done.files, ..run.world },
            }
        }),
    decreases base.page.len() - position,
{
    let index = run.world.index;
    let ledger = Ledger { files: run.world.files, tally: base.tally };
    if position < base.page.len() {
        let id = base.page[position as int];
        let mid = export_record(index, ledger, id);
        lemma_tally_grows_from(index, mid, base.page, position + 1);
        lemma_record(run, base, position);
        let moves = record_moves(index, run.world.files, id);
        let after_record = run.after(moves);
        let base_after = State { tally: mid.tally, ..base };
        lemma_page(after_record, base_after, position + 1);
        lemma_after_add(run, moves, moves_from(index, mid, base.page, position + 1));
        let done = export_from(index, ledger, base.page, position);
        assert(State { tally: done.tally, ..base_after } == State { tally: done.tally, ..base });
        assert(World { files: done.files, ..after_record.world } == World {
            files: done.files,
            ..run.world
        });
    } else {
        assert(State { tally: base.tally, ..base } == base);
        assert(World { files: run.world.files, ..run.world } == run.world);
    }
}

/// On a walk that ends within `pages` pages, the machine does what
/// `export_walk` says, and then finishes with the counters of that account.
pub proof fn lemma_walk(run: Run, pages: nat)
    requires
        run.state.stage is Page,
        run.request == (Request::FetchPage { limit: PAGE_SIZE, from: run.state.from }),
        export_walk(
            run.world.index,
            run.state.end,
            run.state.from,
            Ledger { files: run.world.files, tally: run.state.tally },
            pages,
        ) matches Some(done) && done.tally.fits(),
    ensures
        ({
            let ledger = Ledger { files: run.world.files, tally: run.state.tally };
            let done = export_walk(
                run.world.index,
                run.state.end,
                run.state.from,
                ledger,
                pages,
            ).unwrap();
            let last = run.after(
                walk_moves(run.world.index, run.state.end, run.state.from, ledger, pages),
            );
            &&& last.request == Request::Finish { tally: done.tally }
            &&& last.state.stage is Finished
            &&& last.state.tally == done.tally
            &&& last.world == World { files: done.files, ..run.world }
        }),
    decreases pages,
{
    let index = run.world.index;
    let end = run.state.end;
    let ledger = Ledger { files: run.world.files, tally: run.state.tally };
    let page = index.page(PAGE_SIZE, run.state.from);
    let done = export_from(index, ledger, page.ids, 0);
    let onward = advance(end, page.next);
    let records = moves_from(index, ledger, page.ids, 0);
    assert(done.tally.fits()) by {
        if onward is Some {
            lemma_tally_grows_walk(index, end, onward, done, (pages - 1) as nat);
        }
    }
    // One move takes the page.
    let taken = run.next().unwrap();
    let base = State {
        from: if onward is Some {
            onward
        } else {
            run.state.from
        },
        last: onward is None,
        page: page.ids,
        ..run.state
    };
    assert((taken.state, taken.request) == base.turn_to(0));
    assert(run.after(1) == taken) by {
        reveal_with_fuel(Run::after, 2);
    }
    // The moves on its records.
    lemma_page(taken, base, 0);
    let exported = taken.after(records);
    lemma_after_add(run, 1, records);
    // One move has its progress line printed.
    let reported = exported.next().unwrap();
    assert(exported.after(1) == reported) by {
        reveal_with_fuel(Run::after, 2);
    }
    lemma_after_add(run, 1 + records, 1);
    assert(run.after(2 + records) == reported);
    match onward {
        Some(cursor) => {
            let rest = walk_moves(index, end, onward, done, (pages - 1) as nat);
            lemma_walk(reported, (pages - 1) as nat);
            lemma_after_add(run, 2 + records, rest);
        },
        None => {
            assert(reported.after(0) == reported);
            assert(2 + records + 0 == 2 + records);
        },
    }
}

/// The machine and the plain account agree: where the account says that the
/// walk ends with certain files and counters, and the counters fit, a run of
/// the machine against that world finishes, reports those counters, and
/// leaves those files.
pub proof fn lemma_run_is_export(
    image_dir: Seq<char>,
    start: u64,
    end: u64,
    world: World,
    pages: nat,
)
    requires
        export_walk(
            world.index,
            end,
            Some(start),
            Ledger { files: world.files, tally: Tally::zero() },
            pages,
        ) matches Some(done) && done.tally.fits(),
    ensures
        ({
            let ledger = Ledger { files: world.files, tally: Tally::zero() };
            let done = export_walk(world.index, end, Some(start), ledger, pages).unwrap();
            let last = Run::begin(image_dir, start, end, world).after(
                walk_moves(world.index, end, Some(start), ledger, pages),
            );
            &&& last.request == Request::Finish { tally: done.tally }
            &&& last.world == World { index: world.index, files: done.files }
        }),
{
    lemma_walk(Run::begin(image_dir, start, end, world), pages);
}

} // verus!
