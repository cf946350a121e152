//! What holds across operations of a store.
//!
//! The in-process backend's contracts speak of its records as a map from
//! identifier to JSON text, and the single-file backend's of the members of its
//! aggregate object; these lemmas state, over those maps, what a sequence of
//! operations leaves behind.
use vstd::prelude::*;

use serde_json::Value;

use crate::error::{ErrorKind, StoreError};
use crate::file_store::{encoded, holds_document, Effect, FileStore};
use crate::json::{compact_of, empty_document, is_json, object_in, object_of, value_of};

verus! {

/// Saving `record` under `id` and then reading `id` gives `record` back.
pub proof fn lemma_round_trip(records: Map<Seq<char>, Seq<char>>, id: Seq<char>, record: Seq<char>)
    ensures
        records.insert(id, record).contains_key(id),
        records.insert(id, record)[id] == record,
{
}

/// After a delete of `id`, neither a read nor a second delete of `id` finds a record.
pub proof fn lemma_delete_then_get(records: Map<Seq<char>, Seq<char>>, id: Seq<char>)
    ensures
        !records.remove(id).contains_key(id),
        records.remove(id).remove(id) == records.remove(id),
{
    assert(records.remove(id).remove(id) =~= records.remove(id));
}

/// Saving twice under one identifier keeps only the later record, and the
/// identifiers are those after the first save.
pub proof fn lemma_upsert(records: Map<Seq<char>, Seq<char>>, id: Seq<char>, first: Seq<char>, second: Seq<char>)
    ensures
        records.insert(id, first).insert(id, second) == records.insert(id, second),
        records.insert(id, first).insert(id, second).dom() == records.insert(id, first).dom(),
{
    assert(records.insert(id, first).insert(id, second) =~= records.insert(id, second));
}

/// The records after saving `texts[i]` under `ids[i]` for each `i` in turn.
pub open spec fn saved_in_turn(records: Map<Seq<char>, Seq<char>>, ids: Seq<Seq<char>>, texts: Seq<Seq<char>>) -> Map<
    Seq<char>,
    Seq<char>,
>
    decreases ids.len(),
{
    if ids.len() == 0 {
        records
    } else {
        saved_in_turn(records, ids.drop_last(), texts.drop_last()).insert(ids.last(), texts.last())
    }
}

/// Saving records under distinct identifiers into an empty store leaves exactly
/// those records: one for each identifier, each the one saved under it.
pub proof fn lemma_distinct_saves(ids: Seq<Seq<char>>, texts: Seq<Seq<char>>)
    requires
        ids.len() == texts.len(),
        ids.no_duplicates(),
    ensures
        saved_in_turn(Map::empty(), ids, texts).dom() == ids.to_set(),
        saved_in_turn(Map::empty(), ids, texts).dom().len() == ids.len(),
        forall|i: int| 0 <= i < ids.len() ==> #[trigger] saved_in_turn(Map::empty(), ids, texts)[ids[i]] == texts[i],
    decreases ids.len(),
{
    let m = saved_in_turn(Map::empty(), ids, texts);
    if ids.len() > 0 {
        let rest = ids.drop_last();
        assert(rest.no_duplicates());
        lemma_distinct_saves(rest, texts.drop_last());
        assert(m.dom() =~= ids.to_set()) by {
            assert forall|k: Seq<char>| m.dom().contains(k) <==> ids.to_set().contains(k) by {
                if rest.to_set().contains(k) {
                    let j = choose|j: int| 0 <= j < rest.len() && rest[j] == k;
                    assert(ids[j] == k);
                }
                if ids.to_set().contains(k) && k != ids.last() {
                    let j = choose|j: int| 0 <= j < ids.len() && ids[j] == k;
                    assert(rest[j] == k);
                }
            }
        }
        assert forall|i: int| 0 <= i < ids.len() implies #[trigger] m[ids[i]] == texts[i] by {
            if i < ids.len() - 1 {
                assert(rest[i] == ids[i]);
                assert(texts.drop_last()[i] == texts[i]);
                assert(ids[i] != ids.last());
            }
        }
    } else {
        assert(m.dom() =~= ids.to_set());
    }
    ids.unique_seq_to_set();
}

/// In single-file mode, saving under two identifiers into an empty document gives
/// an object with exactly those two members; deleting one leaves the other, and
/// deleting that too leaves an empty object.
pub proof fn lemma_aggregate(doc: Map<Seq<char>, Value>, x: Seq<char>, y: Seq<char>, vx: Value, vy: Value)
    requires
        doc.dom() == Set::<Seq<char>>::empty(),
        x != y,
    ensures
        doc.insert(x, vx).insert(y, vy).dom() == set![x, y],
        doc.insert(x, vx).insert(y, vy)[x] == vx,
        doc.insert(x, vx).insert(y, vy)[y] == vy,
        doc.insert(x, vx).insert(y, vy).remove(y).dom() == set![x],
        doc.insert(x, vx).insert(y, vy).remove(y).remove(x).dom() == Set::<Seq<char>>::empty(),
{
    let d = doc.insert(x, vx).insert(y, vy);
    assert(d.dom() =~= set![x, y]);
    assert(d.remove(y).dom() =~= set![x]);
    assert(d.remove(y).remove(x).dom() =~= Set::<Seq<char>>::empty());
}

/// The in-process records and the single-file document agree on which identifiers
/// they hold after a save or a delete whenever they agreed before, so a read or a
/// delete finds a record in one exactly where it finds one in the other.
pub proof fn lemma_backends_agree(
    records: Map<Seq<char>, Seq<char>>,
    doc: Map<Seq<char>, Value>,
    id: Seq<char>,
    record: Seq<char>,
    value: Value,
)
    requires
        records.dom() == doc.dom(),
    ensures
        records.contains_key(id) == doc.contains_key(id),
        records.insert(id, record).dom() == doc.insert(id, value).dom(),
        records.remove(id).dom() == doc.remove(id).dom(),
{
    assert(records.insert(id, record).dom() =~= doc.insert(id, value).dom());
    assert(records.remove(id).dom() =~= doc.remove(id).dom());
}

/// In directory mode with compact output, a record saved under `id` is read back
/// from the file the save wrote exactly as it was given.
pub proof fn lemma_directory_round_trip(
    f: FileStore,
    record: Seq<char>,
    id: Seq<char>,
    saved: Result<Effect, StoreError>,
    written: Seq<char>,
    got: Result<String, StoreError>,
)
    requires
        !f.config().single,
        !f.config().pretty,
        is_json(record),
        f.save_result(record, id, Seq::empty(), saved),
        saved is Ok ==> saved->Ok_0.writes(f.record_path(id), written),
        f.get_result(id, written, got),
    ensures
        saved is Ok,
        saved->Ok_0.writes(f.record_path(id), record),
        got is Ok && got->Ok_0@ == record,
{
}

/// An in-process store and a compact directory store given the same save of a JSON
/// record read the same text back for its identifier.
pub proof fn lemma_memory_and_directory_agree(
    records: Map<Seq<char>, Seq<char>>,
    f: FileStore,
    record: Seq<char>,
    id: Seq<char>,
    saved: Result<Effect, StoreError>,
    written: Seq<char>,
    got: Result<String, StoreError>,
)
    requires
        !f.config().single,
        !f.config().pretty,
        is_json(record),
        f.save_result(record, id, Seq::empty(), saved),
        saved is Ok ==> saved->Ok_0.writes(f.record_path(id), written),
        f.get_result(id, written, got),
    ensures
        records.insert(id, record).contains_key(id),
        got is Ok && got->Ok_0@ == records.insert(id, record)[id],
{
}

/// In single-file mode, a record saved under `id` is then read back as its value's
/// compact text, provided the document written reads back as the document meant.
pub proof fn lemma_single_file_round_trip(
    f: FileStore,
    current: Seq<char>,
    record: Seq<char>,
    id: Seq<char>,
    saved: Result<Effect, StoreError>,
    written: Seq<char>,
    got: Result<String, StoreError>,
)
    requires
        f.config().single,
        object_in(current) is Some,
        is_json(record),
        f.save_result(record, id, current, saved),
        saved is Ok ==> saved->Ok_0.writes(f.record_path(id), written),
        holds_document(written, object_in(current)->0.insert(id, value_of(record))),
        f.get_result(id, written, got),
    ensures
        saved is Ok,
        got is Ok && got->Ok_0@ == compact_of(value_of(record)),
{
}

/// In single-file mode, after a delete of `id` succeeds, reading `id` and deleting it
/// again both fail with `NotFound`, provided the document written reads back.
pub proof fn lemma_single_file_delete_then_get(
    f: FileStore,
    current: Seq<char>,
    id: Seq<char>,
    deleted: Result<Effect, StoreError>,
    written: Seq<char>,
    got: Result<String, StoreError>,
    again: Result<Effect, StoreError>,
)
    requires
        f.config().single,
        f.delete_result(id, current, deleted),
        deleted is Ok,
        deleted->Ok_0.writes(f.record_path(id), written),
        holds_document(written, object_in(current)->0.remove(id)),
        f.get_result(id, written, got),
        f.delete_result(id, written, again),
    ensures
        got is Err && got->Err_0.kind == ErrorKind::NotFound,
        again is Err && again->Err_0.kind == ErrorKind::NotFound,
{
}

/// In single-file mode, saving `second` over `first` under `id` writes the same text
/// as saving only `second`, and keeps the identifiers, provided the first document
/// written reads back.
pub proof fn lemma_single_file_upsert(
    f: FileStore,
    current: Seq<char>,
    id: Seq<char>,
    first: Seq<char>,
    second: Seq<char>,
    saved: Result<Effect, StoreError>,
    written: Seq<char>,
    resaved: Result<Effect, StoreError>,
)
    requires
        f.config().single,
        object_in(current) is Some,
        is_json(first),
        is_json(second),
        f.save_result(first, id, current, saved),
        saved is Ok ==> saved->Ok_0.writes(f.record_path(id), written),
        holds_document(written, object_in(current)->0.insert(id, value_of(first))),
        f.save_result(second, id, written, resaved),
    ensures
        resaved is Ok,
        resaved->Ok_0.writes(
            f.record_path(id),
            encoded(f.config(), object_of(object_in(current)->0.insert(id, value_of(second)))),
        ),
        object_in(current)->0.insert(id, value_of(first)).insert(id, value_of(second)).dom() == object_in(
            written,
        )->0.dom(),
{
    assert(object_in(current)->0.insert(id, value_of(first)).insert(id, value_of(second)) =~= object_in(
        current,
    )->0.insert(id, value_of(second)));
}

/// In single-file mode, saving under `x` and `y` into the empty document and then
/// deleting both, each written document reading back, leaves the text of the empty
/// document that opening the store writes; between, the document holds exactly `x`
/// and `y`, and then exactly `x`.
pub proof fn lemma_single_file_aggregate(
    f: FileStore,
    x: Seq<char>,
    y: Seq<char>,
    rx: Seq<char>,
    ry: Seq<char>,
    w0: Seq<char>,
    w1: Seq<char>,
    w2: Seq<char>,
    w3: Seq<char>,
    w4: Seq<char>,
    s1: Result<Effect, StoreError>,
    s2: Result<Effect, StoreError>,
    d1: Result<Effect, StoreError>,
    d2: Result<Effect, StoreError>,
)
    requires
        f.config().single,
        x != y,
        is_json(rx),
        is_json(ry),
        holds_document(w0, empty_document()),
        f.save_result(rx, x, w0, s1),
        s1 is Ok ==> s1->Ok_0.writes(f.record_path(x), w1),
        holds_document(w1, empty_document().insert(x, value_of(rx))),
        f.save_result(ry, y, w1, s2),
        s2 is Ok ==> s2->Ok_0.writes(f.record_path(y), w2),
        holds_document(w2, empty_document().insert(x, value_of(rx)).insert(y, value_of(ry))),
        f.delete_result(y, w2, d1),
        d1 is Ok ==> d1->Ok_0.writes(f.record_path(y), w3),
        holds_document(w3, empty_document().insert(x, value_of(rx))),
        f.delete_result(x, w3, d2),
        d2 is Ok ==> d2->Ok_0.writes(f.record_path(x), w4),
    ensures
        s1 is Ok && s2 is Ok && d1 is Ok && d2 is Ok,
        f.record_path(x) == f.record_path(y),
        object_in(w2)->0.dom() == set![x, y],
        object_in(w3)->0.dom() == set![x],
        w4 == encoded(f.config(), object_of(empty_document())),
{
    let e = empty_document();
    assert(e.insert(x, value_of(rx)).insert(y, value_of(ry)).dom() =~= set![x, y]);
    assert(e.insert(x, value_of(rx)).insert(y, value_of(ry)).remove(y) =~= e.insert(x, value_of(rx)));
    assert(e.insert(x, value_of(rx)).dom() =~= set![x]);
    assert(e.insert(x, value_of(rx)).remove(x) =~= e);
}

} // verus!
