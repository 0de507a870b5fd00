//! What a run comes to, told without the machine: the files and the counters
//! after one record, after a page, and after the whole walk.

use crate::machine::{advance, PAGE_SIZE};
use crate::record::{target, up_to_date, InscriptionId, Target};
use crate::stats::Tally;
use crate::world::{probe, Files, Index};
use vstd::prelude::*;

verus! {

/// The files and the counters of a run at one moment.
pub struct Ledger {
    pub files: Files,
    pub tally: Tally,
}

/// The file that a record of the index is exported to, if it is exported: it
/// must have an entry and content, and the content must be an image.
pub open spec fn wanted(index: Index, id: InscriptionId) -> Option<Target> {
    match (index.entry(id), index.content(id)) {
        (Some(entry), Some(content)) => target(entry.number, content),
        _ => None,
    }
}

/// Whether the file of a record is in place: a file of its name exists and
/// has the declared length. Holds of a record that is not exported.
pub open spec fn settled(index: Index, files: Files, id: InscriptionId) -> bool {
    wanted(index, id) matches Some(file) ==> up_to_date(probe(files, file.file_name), file.length)
}

/// One record: nothing happens unless it is exported; then a file in place is
/// left alone and counted as skipped, and any other is written in full and
/// counted as written, with the declared length.
pub open spec fn export_record(index: Index, ledger: Ledger, id: InscriptionId) -> Ledger {
    match wanted(index, id) {
        Some(file) => if up_to_date(probe(ledger.files, file.file_name), file.length) {
            Ledger { tally: ledger.tally.skip(), ..ledger }
        } else {
            Ledger {
                files: ledger.files.insert(file.file_name, file.body),
                tally: ledger.tally.write(file.length as nat),
            }
        },
        None => ledger,
    }
}

/// The records of a page from `position` on, in order.
pub open spec fn export_from(
    index: Index,
    ledger: Ledger,
    ids: Seq<InscriptionId>,
    position: nat,
) -> Ledger
    decreases ids.len() - position,
{
    if position >= ids.len() {
        ledger
    } else {
        export_from(index, export_record(index, ledger, ids[position as int]), ids, position + 1)
    }
}

/// The walk from cursor `from`: each page is exported in full, and the walk
/// goes on from the cursor that the index offers until it offers none or
/// offers one beyond the bound `end`. `None` when the walk takes more than
/// `pages` pages.
pub open spec fn export_walk(
    index: Index,
    end: u64,
    from: Option<u64>,
    ledger: Ledger,
    pages: nat,
) -> Option<Ledger>
    decreases pages,
{
    if pages == 0 {
        None
    } else {
        let page = index.page(PAGE_SIZE, from);
        let done = export_from(index, ledger, page.ids, 0);
        match advance(end, page.next) {
            Some(cursor) => export_walk(index, end, Some(cursor), done, (pages - 1) as nat),
            None => Some(done),
        }
    }
}

} // verus!
