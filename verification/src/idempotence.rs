//! A run made twice: the second finds every file in place and skips it.

use crate::export::{export_from, export_record, export_walk, settled, wanted, Ledger};
use crate::machine::{advance, Request, PAGE_SIZE};
use crate::media::extension_or_unknown;
use crate::naming::lemma_file_name_is_injective;
use crate::refinement::{lemma_run_is_export, walk_moves};
use crate::record::InscriptionId;
use crate::stats::Tally;
use crate::world::{Files, Index, Run, World};
use vstd::prelude::*;

verus! {

/// Whether the walk from cursor `from` ends within `pages` pages. This is a
/// matter of the index and the bound alone.
pub open spec fn walk_ends(index: Index, end: u64, from: Option<u64>, pages: nat) -> bool
    decreases pages,
{
    pages > 0 && match advance(end, index.page(PAGE_SIZE, from).next) {
        Some(cursor) => walk_ends(index, end, Some(cursor), (pages - 1) as nat),
        None => true,
    }
}

/// Whether the walk meets a record on one of its first `pages` pages.
pub open spec fn walk_meets(
    index: Index,
    end: u64,
    from: Option<u64>,
    pages: nat,
    id: InscriptionId,
) -> bool
    decreases pages,
{
    pages > 0 && {
        let page = index.page(PAGE_SIZE, from);
        ||| page.ids.contains(id)
        ||| advance(end, page.next) matches Some(cursor) && walk_meets(
            index,
            end,
            Some(cursor),
            (pages - 1) as nat,
            id,
        )
    }
}

/// The records that the walk meets on its first `pages` pages.
pub open spec fn met(index: Index, end: u64, from: Option<u64>, pages: nat) -> Set<
    InscriptionId,
> {
    Set::new(|id: InscriptionId| walk_meets(index, end, from, pages, id))
}

/// Every record of `scope` that is exported declares the length that its
/// body has.
pub open spec fn lengths_are_true(index: Index, scope: Set<InscriptionId>) -> bool {
    forall|id: InscriptionId|
        scope.contains(id) ==> ((#[trigger] wanted(index, id)) matches Some(file) ==> file.length
            == file.body.len())
}

/// Records of `scope` that are exported to a file of the same name declare
/// the same length.
pub open spec fn names_agree(index: Index, scope: Set<InscriptionId>) -> bool {
    forall|id: InscriptionId, other: InscriptionId|
        scope.contains(id) && scope.contains(other) ==> ({
            &&& #[trigger] wanted(index, id) matches Some(file)
            &&& #[trigger] wanted(index, other) matches Some(other_file)
            &&& file.file_name == other_file.file_name
        } ==> wanted(index, id).unwrap().length == wanted(index, other).unwrap().length)
}

/// No two records have the same sequence number.
pub open spec fn numbers_are_unique(index: Index) -> bool {
    forall|id: InscriptionId, other: InscriptionId|
        ({
            &&& #[trigger] index.entry(id) matches Some(entry)
            &&& #[trigger] index.entry(other) matches Some(other_entry)
            &&& entry.number == other_entry.number
        }) ==> id == other
}

/// Where sequence numbers are unique, two records that are exported to a
/// file of the same name are the same record: their names agree.
pub proof fn lemma_unique_numbers_agree(index: Index, scope: Set<InscriptionId>)
    requires
        numbers_are_unique(index),
    ensures
        names_agree(index, scope),
{
    assert forall|id: InscriptionId, other: InscriptionId|
        scope.contains(id) && scope.contains(other) && ({
            &&& #[trigger] wanted(index, id) matches Some(file)
            &&& #[trigger] wanted(index, other) matches Some(other_file)
            &&& file.file_name == other_file.file_name
        }) implies id == other by {
        lemma_file_name_is_injective(
            index.entry(id).unwrap().number as nat,
            extension_or_unknown(index.content(id).unwrap().media_type()),
            index.entry(other).unwrap().number as nat,
            extension_or_unknown(index.content(other).unwrap().media_type()),
        );
    }
}

/// Whether every record on the first `pages` pages of the walk is in `scope`.
pub open spec fn walk_within(
    index: Index,
    end: u64,
    from: Option<u64>,
    pages: nat,
    scope: Set<InscriptionId>,
) -> bool
    decreases pages,
{
    pages > 0 ==> {
        let page = index.page(PAGE_SIZE, from);
        &&& forall|k: int| 0 <= k < page.ids.len() ==> scope.contains(#[trigger] page.ids[k])
        &&& advance(end, page.next) matches Some(cursor) ==> walk_within(
            index,
            end,
            Some(cursor),
            (pages - 1) as nat,
            scope,
        )
    }
}

/// A walk whose later pages lie within the records that it meets from its
/// second page on lies within those that it meets from its first.
proof fn lemma_walk_within_grows(
    index: Index,
    end: u64,
    from: Option<u64>,
    pages: nat,
    scope: Set<InscriptionId>,
    wider: Set<InscriptionId>,
)
    requires
        walk_within(index, end, from, pages, scope),
        scope.subset_of(wider),
    ensures
        walk_within(index, end, from, pages, wider),
    decreases pages,
{
    if pages > 0 {
        let page = index.page(PAGE_SIZE, from);
        match advance(end, page.next) {
            Some(cursor) => lemma_walk_within_grows(
                index,
                end,
                Some(cursor),
                (pages - 1) as nat,
                scope,
                wider,
            ),
            None => {},
        }
    }
}

/// Every record of a walk is among those that the walk meets.
pub proof fn lemma_walk_within_met(index: Index, end: u64, from: Option<u64>, pages: nat)
    ensures
        walk_within(index, end, from, pages, met(index, end, from, pages)),
    decreases pages,
{
    if pages > 0 {
        let page = index.page(PAGE_SIZE, from);
        let scope = met(index, end, from, pages);
        assert forall|k: int| 0 <= k < page.ids.len() implies scope.contains(
            #[trigger] page.ids[k],
        ) by {
            assert(page.ids.contains(page.ids[k]));
        }
        match advance(end, page.next) {
            Some(cursor) => {
                let rest = met(index, end, Some(cursor), (pages - 1) as nat);
                lemma_walk_within_met(index, end, Some(cursor), (pages - 1) as nat);
                assert(rest.subset_of(scope));
                lemma_walk_within_grows(index, end, Some(cursor), (pages - 1) as nat, rest, scope);
            },
            None => {},
        }
    }
}

/// Once a record is done, its file is in place, if it declares the length of
/// its body.
pub proof fn lemma_record_settles(
    index: Index,
    ledger: Ledger,
    id: InscriptionId,
    scope: Set<InscriptionId>,
)
    requires
        lengths_are_true(index, scope),
        scope.contains(id),
    ensures
        settled(index, export_record(index, ledger, id).files, id),
{
}

/// A file that is in place stays in place when another record is exported.
pub proof fn lemma_record_keeps_settled(
    index: Index,
    ledger: Ledger,
    id: InscriptionId,
    other: InscriptionId,
    scope: Set<InscriptionId>,
)
    requires
        lengths_are_true(index, scope),
        names_agree(index, scope),
        scope.contains(id),
        scope.contains(other),
        settled(index, ledger.files, other),
    ensures
        settled(index, export_record(index, ledger, id).files, other),
{
    lemma_record_settles(index, ledger, id, scope);
}

/// A file that is in place stays in place over the records of a page.
pub proof fn lemma_page_keeps_settled(
    index: Index,
    ledger: Ledger,
    ids: Seq<InscriptionId>,
    position: nat,
    other: InscriptionId,
    scope: Set<InscriptionId>,
)
    requires
        lengths_are_true(index, scope),
        names_agree(index, scope),
        forall|k: int| 0 <= k < ids.len() ==> scope.contains(#[trigger] ids[k]),
        scope.contains(other),
        settled(index, ledger.files, other),
    ensures
        settled(index, export_from(index, ledger, ids, position).files, other),
    decreases ids.len() - position,
{
    if position < ids.len() {
        let id = ids[position as int];
        lemma_record_keeps_settled(index, ledger, id, other, scope);
        lemma_page_keeps_settled(
            index,
            export_record(index, ledger, id),
            ids,
            position + 1,
            other,
            scope,
        );
    }
}

/// Once the records of a page are done, the file of each is in place.
pub proof fn lemma_page_settles(
    index: Index,
    ledger: Ledger,
    ids: Seq<InscriptionId>,
    position: nat,
    scope: Set<InscriptionId>,
)
    requires
        lengths_are_true(index, scope),
        names_agree(index, scope),
        forall|k: int| 0 <= k < ids.len() ==> scope.contains(#[trigger] ids[k]),
    ensures
        forall|k: int|
            position <= k < ids.len() ==> settled(
                index,
                export_from(index, ledger, ids, position).files,
                #[trigger] ids[k],
            ),
    decreases ids.len() - position,
{
    if position < ids.len() {
        let id = ids[position as int];
        let mid = export_record(index, ledger, id);
        lemma_record_settles(index, ledger, id, scope);
        lemma_page_keeps_settled(index, mid, ids, position + 1, id, scope);
        lemma_page_settles(index, mid, ids, position + 1, scope);
    }
}

/// A file that is in place stays in place over a walk.
pub proof fn lemma_walk_keeps_settled(
    index: Index,
    end: u64,
    from: Option<u64>,
    ledger: Ledger,
    pages: nat,
    other: InscriptionId,
    scope: Set<InscriptionId>,
)
    requires
        lengths_are_true(index, scope),
        names_agree(index, scope),
        walk_within(index, end, from, pages, scope),
        scope.contains(other),
        settled(index, ledger.files, other),
    ensures
        export_walk(index, end, from, ledger, pages) matches Some(done) ==> settled(
            index,
            done.files,
            other,
        ),
    decreases pages,
{
    if pages > 0 {
        let page = index.page(PAGE_SIZE, from);
        let mid = export_from(index, ledger, page.ids, 0);
        lemma_page_keeps_settled(index, ledger, page.ids, 0, other, scope);
        match advance(end, page.next) {
            Some(cursor) => lemma_walk_keeps_settled(
                index,
                end,
                Some(cursor),
                mid,
                (pages - 1) as nat,
                other,
                scope,
            ),
            None => {},
        }
    }
}

/// Whether the walk from cursor `from` ends within `pages` pages and finds
/// the file of every record of its pages in place.
pub open spec fn walk_settled(
    index: Index,
    end: u64,
    from: Option<u64>,
    files: Files,
    pages: nat,
) -> bool
    decreases pages,
{
    pages > 0 && {
        let page = index.page(PAGE_SIZE, from);
        &&& forall|k: int| 0 <= k < page.ids.len() ==> settled(index, files, #[trigger] page.ids[k])
        &&& match advance(end, page.next) {
            Some(cursor) => walk_settled(index, end, Some(cursor), files, (pages - 1) as nat),
            None => true,
        }
    }
}

/// Once a walk is done, it would find the file of every record of its pages
/// in place.
pub proof fn lemma_walk_settles(
    index: Index,
    end: u64,
    from: Option<u64>,
    ledger: Ledger,
    pages: nat,
    scope: Set<InscriptionId>,
)
    requires
        lengths_are_true(index, scope),
        names_agree(index, scope),
        walk_within(index, end, from, pages, scope),
        export_walk(index, end, from, ledger, pages) is Some,
    ensures
        walk_settled(
            index,
            end,
            from,
            export_walk(index, end, from, ledger, pages).unwrap().files,
            pages,
        ),
    decreases pages,
{
    let page = index.page(PAGE_SIZE, from);
    let mid = export_from(index, ledger, page.ids, 0);
    let done = export_walk(index, end, from, ledger, pages).unwrap();
    lemma_page_settles(index, ledger, page.ids, 0, scope);
    match advance(end, page.next) {
        Some(cursor) => {
            lemma_walk_settles(index, end, Some(cursor), mid, (pages - 1) as nat, scope);
            assert forall|k: int| 0 <= k < page.ids.len() implies settled(
                index,
                done.files,
                #[trigger] page.ids[k],
            ) by {
                lemma_walk_keeps_settled(
                    index,
                    end,
                    Some(cursor),
                    mid,
                    (pages - 1) as nat,
                    page.ids[k],
                    scope,
                );
            }
        },
        None => {},
    }
}

/// The number of records of a page from `position` on that are exported.
pub open spec fn selected_from(index: Index, ids: Seq<InscriptionId>, position: nat) -> nat
    decreases ids.len() - position,
{
    if position >= ids.len() {
        0
    } else {
        (if wanted(index, ids[position as int]) is Some {
            1nat
        } else {
            0nat
        }) + selected_from(index, ids, position + 1)
    }
}

/// The declared lengths, summed, of the records of a page from `position` on
/// that are exported.
pub open spec fn lengths_from(index: Index, ids: Seq<InscriptionId>, position: nat) -> nat
    decreases ids.len() - position,
{
    if position >= ids.len() {
        0
    } else {
        (match wanted(index, ids[position as int]) {
            Some(file) => file.length as nat,
            None => 0nat,
        }) + lengths_from(index, ids, position + 1)
    }
}

/// The number of records on the first `pages` pages of a walk that are
/// exported, each counted as often as the walk meets it.
pub open spec fn walk_selected(index: Index, end: u64, from: Option<u64>, pages: nat) -> nat
    decreases pages,
{
    if pages == 0 {
        0
    } else {
        let page = index.page(PAGE_SIZE, from);
        selected_from(index, page.ids, 0) + match advance(end, page.next) {
            Some(cursor) => walk_selected(index, end, Some(cursor), (pages - 1) as nat),
            None => 0,
        }
    }
}

/// The declared lengths, summed, of those records.
pub open spec fn walk_lengths(index: Index, end: u64, from: Option<u64>, pages: nat) -> nat
    decreases pages,
{
    if pages == 0 {
        0
    } else {
        let page = index.page(PAGE_SIZE, from);
        lengths_from(index, page.ids, 0) + match advance(end, page.next) {
            Some(cursor) => walk_lengths(index, end, Some(cursor), (pages - 1) as nat),
            None => 0,
        }
    }
}

/// Over the records of a page, each exported record is counted once, as
/// written or as skipped, and the bytes counted are at most the declared
/// lengths of those records.
pub proof fn lemma_page_counts(
    index: Index,
    ledger: Ledger,
    ids: Seq<InscriptionId>,
    position: nat,
)
    ensures
        ({
            let done = export_from(index, ledger, ids, position);
            &&& done.tally.written + done.tally.skipped == ledger.tally.written
                + ledger.tally.skipped + selected_from(index, ids, position)
            &&& done.tally.written >= ledger.tally.written
            &&& done.tally.skipped >= ledger.tally.skipped
            &&& ledger.tally.bytes <= done.tally.bytes <= ledger.tally.bytes + lengths_from(
                index,
                ids,
                position,
            )
        }),
    decreases ids.len() - position,
{
    if position < ids.len() {
        lemma_page_counts(
            index,
            export_record(index, ledger, ids[position as int]),
            ids,
            position + 1,
        );
    }
}

/// A walk that ends has an outcome, and over it each exported record is
/// counted once for each time that the walk meets it, as written or as
/// skipped; the bytes counted are at most the declared lengths of those
/// records.
pub proof fn lemma_walk_counts(
    index: Index,
    end: u64,
    from: Option<u64>,
    ledger: Ledger,
    pages: nat,
)
    requires
        walk_ends(index, end, from, pages),
    ensures
        export_walk(index, end, from, ledger, pages) is Some,
        ({
            let done = export_walk(index, end, from, ledger, pages).unwrap();
            &&& done.tally.written + done.tally.skipped == ledger.tally.written
                + ledger.tally.skipped + walk_selected(index, end, from, pages)
            &&& done.tally.written >= ledger.tally.written
            &&& done.tally.skipped >= ledger.tally.skipped
            &&& ledger.tally.bytes <= done.tally.bytes <= ledger.tally.bytes + walk_lengths(
                index,
                end,
                from,
                pages,
            )
        }),
    decreases pages,
{
    let page = index.page(PAGE_SIZE, from);
    let mid = export_from(index, ledger, page.ids, 0);
    lemma_page_counts(index, ledger, page.ids, 0);
    match advance(end, page.next) {
        Some(cursor) => lemma_walk_counts(index, end, Some(cursor), mid, (pages - 1) as nat),
        None => {},
    }
}

/// Records whose files are in place are skipped, each of them, and nothing
/// is written.
pub proof fn lemma_settled_page_is_skipped(
    index: Index,
    ledger: Ledger,
    ids: Seq<InscriptionId>,
    position: nat,
)
    requires
        forall|k: int| position <= k < ids.len() ==> settled(index, ledger.files, #[trigger] ids[k]),
    ensures
        export_from(index, ledger, ids, position) == (Ledger {
            files: ledger.files,
            tally: Tally {
                skipped: ledger.tally.skipped + selected_from(index, ids, position),
                ..ledger.tally
            },
        }),
    decreases ids.len() - position,
{
    if position < ids.len() {
        let id = ids[position as int];
        assert(settled(index, ledger.files, id));
        lemma_settled_page_is_skipped(index, export_record(index, ledger, id), ids, position + 1);
    }
}

/// A walk that finds every file in place skips every record that it meets,
/// writes nothing and leaves the files as they are.
pub proof fn lemma_settled_walk_is_skipped(
    index: Index,
    end: u64,
    from: Option<u64>,
    ledger: Ledger,
    pages: nat,
)
    requires
        walk_settled(index, end, from, ledger.files, pages),
    ensures
        export_walk(index, end, from, ledger, pages) == Some(
            Ledger {
                files: ledger.files,
                tally: Tally {
                    skipped: ledger.tally.skipped + walk_selected(index, end, from, pages),
                    ..ledger.tally
                },
            },
        ),
    decreases pages,
{
    let page = index.page(PAGE_SIZE, from);
    let mid = export_from(index, ledger, page.ids, 0);
    lemma_settled_page_is_skipped(index, ledger, page.ids, 0);
    match advance(end, page.next) {
        Some(cursor) => lemma_settled_walk_is_skipped(
            index,
            end,
            Some(cursor),
            mid,
            (pages - 1) as nat,
        ),
        None => {},
    }
}

/// A walk made twice: the second time, over the files that the first left
/// and an index that has not changed, every record that the first wrote or
/// skipped is skipped, nothing is written, and the files stay as they are.
/// This holds where the walk ends, each exported record that it meets
/// declares the length of its body, and those that share a file name declare
/// the same length.
pub proof fn lemma_second_walk_skips_all(
    index: Index,
    end: u64,
    from: Option<u64>,
    files: Files,
    pages: nat,
)
    requires
        walk_ends(index, end, from, pages),
        lengths_are_true(index, met(index, end, from, pages)),
        names_agree(index, met(index, end, from, pages)),
    ensures
        export_walk(index, end, from, Ledger { files, tally: Tally::zero() }, pages) is Some,
        ({
            let first = export_walk(
                index,
                end,
                from,
                Ledger { files, tally: Tally::zero() },
                pages,
            ).unwrap();
            export_walk(
                index,
                end,
                from,
                Ledger { files: first.files, tally: Tally::zero() },
                pages,
            ) == Some(
                Ledger {
                    files: first.files,
                    tally: Tally {
                        written: 0,
                        skipped: first.tally.written + first.tally.skipped,
                        bytes: 0,
                    },
                },
            )
        }),
{
    let start = Ledger { files, tally: Tally::zero() };
    lemma_walk_counts(index, end, from, start, pages);
    let first = export_walk(index, end, from, start, pages).unwrap();
    lemma_walk_within_met(index, end, from, pages);
    lemma_walk_settles(index, end, from, start, pages, met(index, end, from, pages));
    lemma_settled_walk_is_skipped(
        index,
        end,
        from,
        Ledger { files: first.files, tally: Tally::zero() },
        pages,
    );
}

/// What it is for the second of two runs to skip all: both runs finish, the
/// second leaves the world as the first left it, and the second reports
/// nothing written, no bytes, and as skipped every record that the first
/// reported as written or as skipped.
pub open spec fn second_run_skips_all(first: Run, second: Run) -> bool {
    &&& first.request is Finish
    &&& second.request == Request::Finish {
        tally: Tally {
            written: 0,
            skipped: first.request->tally.written + first.request->tally.skipped,
            bytes: 0,
        },
    }
    &&& second.world == first.world
}

/// The two runs of the law below: the first from `world`, the second from
/// the world that the first left, after `moves` and `again` moves.
pub open spec fn runs_twice(
    image_dir: Seq<char>,
    start: u64,
    end: u64,
    world: World,
    moves: nat,
    again: nat,
) -> bool {
    let first = Run::begin(image_dir, start, end, world).after(moves);
    second_run_skips_all(first, Run::begin(image_dir, start, end, first.world).after(again))
}

/// Idempotence. A run made twice over the same range, against an index that
/// has not changed and the files that the first run left: the second run
/// skips every record that the first wrote or skipped, writes nothing, and
/// leaves every file as it is. This holds for an index whose walk ends, where
/// each exported record that the walk meets declares the length of its body
/// and those that share a file name declare the same length, as long as the
/// counters can hold the records and the bytes of the walk.
pub proof fn lemma_second_run_skips_all(
    image_dir: Seq<char>,
    start: u64,
    end: u64,
    world: World,
    pages: nat,
)
    requires
        walk_ends(world.index, end, Some(start), pages),
        lengths_are_true(world.index, met(world.index, end, Some(start), pages)),
        names_agree(world.index, met(world.index, end, Some(start), pages)),
        walk_selected(world.index, end, Some(start), pages) <= u64::MAX,
        walk_lengths(world.index, end, Some(start), pages) <= usize::MAX,
    ensures
        exists|moves: nat, again: nat| #[trigger]
            runs_twice(image_dir, start, end, world, moves, again),
{
    let index = world.index;
    let from = Some(start);
    let ledger = Ledger { files: world.files, tally: Tally::zero() };
    lemma_walk_counts(index, end, from, ledger, pages);
    lemma_second_walk_skips_all(index, end, from, world.files, pages);
    let done = export_walk(index, end, from, ledger, pages).unwrap();
    lemma_run_is_export(image_dir, start, end, world, pages);
    let moves = walk_moves(index, end, from, ledger, pages);
    let left = World { index, files: done.files };
    lemma_run_is_export(image_dir, start, end, left, pages);
    let again = walk_moves(
        index,
        end,
        from,
        Ledger { files: done.files, tally: Tally::zero() },
        pages,
    );
    assert(runs_twice(image_dir, start, end, world, moves, again));
}

} // verus!
