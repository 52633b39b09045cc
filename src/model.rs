use vstd::prelude::*;

use crate::store::{DocumentRecord, TxAction, WriteStep, tx_action, write_steps};

verus! {

/// A document row, as a value.
pub struct DocRow {
    pub title: Option<Seq<char>>,
    pub content: Seq<char>,
    pub modified: int,
    pub created: int,
}

/// A full-text entry: the searchable text of a row.
pub struct TextEntry {
    pub title: Option<Seq<char>>,
    pub content: Seq<char>,
}

/// The committed content of the store: rows and full-text entries, both keyed by path.
pub struct StoreModel {
    pub docs: Map<Seq<char>, DocRow>,
    pub fts: Map<Seq<char>, TextEntry>,
}

pub open spec fn opt_view(t: Option<String>) -> Option<Seq<char>> {
    match t {
        Some(s) => Some(s@),
        None => None,
    }
}

pub open spec fn row_of(doc: DocumentRecord) -> DocRow {
    DocRow {
        title: opt_view(doc.title),
        content: doc.content@,
        modified: doc.modified as int,
        created: doc.created as int,
    }
}

pub open spec fn entry_of(row: DocRow) -> TextEntry {
    TextEntry { title: row.title, content: row.content }
}

/// Every row has exactly one full-text entry, built from it, and every entry has its row.
pub open spec fn consistent(m: StoreModel) -> bool {
    &&& m.docs.dom() == m.fts.dom()
    &&& forall|p: Seq<char>| #[trigger] m.docs.contains_key(p) ==> m.fts[p] == entry_of(m.docs[p])
}

/// The effect of one write step for `doc`.
pub open spec fn apply_step(m: StoreModel, step: WriteStep, doc: DocumentRecord) -> StoreModel {
    let p = doc.path@;
    match step {
        WriteStep::ClearFullText => StoreModel { fts: m.fts.remove(p), ..m },
        WriteStep::UpsertDocument => StoreModel { docs: m.docs.insert(p, row_of(doc)), ..m },
        WriteStep::InsertFullText => if m.docs.contains_key(p) {
            StoreModel { fts: m.fts.insert(p, entry_of(m.docs[p])), ..m }
        } else {
            m
        },
    }
}

/// The committed store after a write of `doc` to the committed store `committed`
/// that has run `done` steps into the pending state `pending`, the last of them
/// successful when `ok`. Each next action is `tx_action`, as in `write_document`;
/// step `failed_at`, if any, fails and leaves the pending state as it was.
pub open spec fn tx_run(
    committed: StoreModel,
    pending: StoreModel,
    done: nat,
    ok: bool,
    doc: DocumentRecord,
    failed_at: Option<nat>,
) -> StoreModel
    decreases write_steps().len() - done,
{
    match tx_action(done, ok) {
        TxAction::Rollback => committed,
        TxAction::Commit => pending,
        TxAction::Run(step) => if done < write_steps().len() {
            let fails = failed_at == Some(done);
            tx_run(
                committed,
                if fails {
                    pending
                } else {
                    apply_step(pending, step, doc)
                },
                done + 1,
                !fails,
                doc,
                failed_at,
            )
        } else {
            committed
        },
    }
}

/// What readers see after a write of `doc` to the committed store `m`, where step
/// `failed_at`, if any, fails. Readers see committed states only: the transaction's
/// isolation is SQLite's, and this model assumes it.
pub open spec fn after_write(m: StoreModel, doc: DocumentRecord, failed_at: Option<nat>) -> StoreModel {
    tx_run(m, m, 0, true, doc, failed_at)
}

/// The store with every step of a write of `doc`.
pub open spec fn full_write(m: StoreModel, doc: DocumentRecord) -> StoreModel {
    apply_step(
        apply_step(apply_step(m, WriteStep::ClearFullText, doc), WriteStep::UpsertDocument, doc),
        WriteStep::InsertFullText,
        doc,
    )
}

proof fn lemma_full_write(m: StoreModel, doc: DocumentRecord)
    requires
        consistent(m),
    ensures
        ({
            let w = full_write(m, doc);
            let p = doc.path@;
            &&& consistent(w)
            &&& w.docs == m.docs.insert(p, row_of(doc))
            &&& w.fts == m.fts.insert(p, entry_of(row_of(doc)))
        }),
{
    let p = doc.path@;
    let w = full_write(m, doc);
    assert(w.docs =~= m.docs.insert(p, row_of(doc)));
    assert(w.fts =~= m.fts.insert(p, entry_of(row_of(doc))));
    assert(w.docs.dom() =~= w.fts.dom());
}

/// Following `tx_action`, a write whose step fails leaves the committed store as it
/// was, and one whose steps all succeed commits all of them.
proof fn lemma_tx_run(m: StoreModel, doc: DocumentRecord, failed_at: Option<nat>)
    ensures
        after_write(m, doc, failed_at) == (if failed_at matches Some(k) && k < 3 {
            m
        } else {
            full_write(m, doc)
        }),
{
    let s = write_steps();
    assert(s.len() == 3);
    assert(s[0] == WriteStep::ClearFullText);
    assert(s[1] == WriteStep::UpsertDocument);
    assert(s[2] == WriteStep::InsertFullText);
    let f0 = failed_at == Some(0nat);
    let f1 = failed_at == Some(1nat);
    let f2 = failed_at == Some(2nat);
    let after_clear = if f0 {
        m
    } else {
        apply_step(m, WriteStep::ClearFullText, doc)
    };
    assert(tx_run(m, m, 0, true, doc, failed_at) == tx_run(m, after_clear, 1, !f0, doc, failed_at));
    if f0 {
        assert(tx_run(m, after_clear, 1, false, doc, failed_at) == m);
    } else {
        let after_upsert = if f1 {
            after_clear
        } else {
            apply_step(after_clear, WriteStep::UpsertDocument, doc)
        };
        assert(tx_run(m, after_clear, 1, true, doc, failed_at) == tx_run(m, after_upsert, 2, !f1, doc, failed_at));
        if f1 {
            assert(tx_run(m, after_upsert, 2, false, doc, failed_at) == m);
        } else {
            let after_insert = if f2 {
                after_upsert
            } else {
                apply_step(after_upsert, WriteStep::InsertFullText, doc)
            };
            assert(tx_run(m, after_upsert, 2, true, doc, failed_at) == tx_run(m, after_insert, 3, !f2, doc, failed_at));
            if f2 {
                assert(tx_run(m, after_insert, 3, false, doc, failed_at) == m);
            } else {
                assert(tx_run(m, after_insert, 3, true, doc, failed_at) == after_insert);
            }
        }
    }
}

/// Atomicity: whatever step of a write fails, readers of a consistent store see a
/// consistent store, which is either the store as it was or the store with the
/// whole write, never a row without its full-text entry or an entry without its row.
pub proof fn lemma_write_is_atomic(m: StoreModel, doc: DocumentRecord, failed_at: Option<nat>)
    requires
        consistent(m),
    ensures
        consistent(after_write(m, doc, failed_at)),
        after_write(m, doc, failed_at) == m || after_write(m, doc, failed_at) == after_write(
            m,
            doc,
            None,
        ),
{
    lemma_tx_run(m, doc, failed_at);
    lemma_tx_run(m, doc, None);
    lemma_full_write(m, doc);
}

/// Idempotence: writing the same document twice leaves the store as one write
/// does, with exactly one row and one full-text entry for its path.
pub proof fn lemma_write_is_idempotent(m: StoreModel, doc: DocumentRecord)
    requires
        consistent(m),
    ensures
        ({
            let once = after_write(m, doc, None);
            let twice = after_write(once, doc, None);
            let p = doc.path@;
            &&& twice == once
            &&& twice.docs.contains_key(p)
            &&& twice.docs[p] == row_of(doc)
            &&& twice.fts.contains_key(p)
            &&& twice.fts[p] == entry_of(row_of(doc))
            &&& consistent(twice)
        }),
{
    let once = after_write(m, doc, None);
    lemma_tx_run(m, doc, None);
    lemma_full_write(m, doc);
    lemma_tx_run(once, doc, None);
    lemma_full_write(once, doc);
    let twice = after_write(once, doc, None);
    assert(twice.docs =~= once.docs);
    assert(twice.fts =~= once.fts);
}

} // verus!
