//! What holds of the record store whatever it is asked, stated over the
//! mathematical table and proved.

use crate::dht::FdbDhtView;
use crate::error::{not_owner_text, ErrorView};
use crate::record::RecordView;
use crate::result::FdbResultView;
use crate::service::lemma_holds_iff_found;
use crate::store::first_of;
use crate::table::{lemma_filter_push, selects, with_cid, TableView};
use vstd::prelude::*;

verus! {

/// Among records of which no two share key and owner, a key and an owner
/// select at most one.
proof fn lemma_unique_selection(rows: Seq<RecordView>, key: Seq<char>, pk: Seq<char>)
    requires
        forall|i: int, j: int|
            #![trigger rows[i], rows[j]]
            0 <= i < j < rows.len() ==> !rows[i].is_for(rows[j].key, rows[j].public_key),
    ensures
        rows.filter(selects(Some(key), Some(pk))).len() <= 1,
    decreases rows.len(),
{
    reveal(Seq::filter);
    let pred = selects(Some(key), Some(pk));
    if rows.len() > 0 {
        let rest = rows.drop_last();
        assert forall|i: int, j: int|
            #![trigger rest[i], rest[j]]
            0 <= i < j < rest.len() implies !rest[i].is_for(rest[j].key, rest[j].public_key) by {
            assert(rest[i] == rows[i] && rest[j] == rows[j]);
        }
        lemma_unique_selection(rest, key, pk);
        if pred(rows.last()) && rest.filter(pred).len() > 0 {
            let hit = rest.filter(pred)[0];
            rest.lemma_filter_pred(pred, 0);
            assert(rest.filter(pred).contains(hit));
            rest.lemma_filter_contains_rev(pred, hit);
            let i = choose|i: int| 0 <= i < rest.len() && rest[i] == hit;
            assert(rows[i] == rest[i]);
            assert(rows[i].is_for(rows[rows.len() - 1].key, rows[rows.len() - 1].public_key));
        }
    }
}

/// A selection keeps the order of creation: among what it keeps, identifiers
/// still grow.
proof fn lemma_selection_ascends(rows: Seq<RecordView>, pred: spec_fn(RecordView) -> bool)
    requires
        forall|i: int, j: int|
            #![trigger rows[i], rows[j]]
            0 <= i < j < rows.len() ==> rows[i].uuid < rows[j].uuid,
    ensures
        forall|a: int, b: int|
            #![trigger rows.filter(pred)[a], rows.filter(pred)[b]]
            0 <= a < b < rows.filter(pred).len() ==> rows.filter(pred)[a].uuid < rows.filter(
                pred,
            )[b].uuid,
    decreases rows.len(),
{
    reveal(Seq::filter);
    if rows.len() > 0 {
        let rest = rows.drop_last();
        let kept = rows.filter(pred);
        assert forall|i: int, j: int|
            #![trigger rest[i], rest[j]]
            0 <= i < j < rest.len() implies rest[i].uuid < rest[j].uuid by {
            assert(rest[i] == rows[i] && rest[j] == rows[j]);
        }
        lemma_selection_ascends(rest, pred);
        assert forall|a: int, b: int|
            #![trigger kept[a], kept[b]]
            0 <= a < b < kept.len() implies kept[a].uuid < kept[b].uuid by {
            if pred(rows.last()) && b == kept.len() - 1 {
                assert(kept[a] == rest.filter(pred)[a]);
                assert(rest.filter(pred).contains(kept[a]));
                rest.lemma_filter_contains_rev(pred, kept[a]);
                let i = choose|i: int| 0 <= i < rest.len() && rest[i] == kept[a];
                assert(rows[i] == rest[i]);
                assert(rows[i].uuid < rows[rows.len() - 1].uuid);
            } else {
                assert(kept[a] == rest.filter(pred)[a]);
                assert(kept[b] == rest.filter(pred)[b]);
            }
        }
    }
}

/// A change that no selection can tell from no change may be made before the
/// selection or after it.
proof fn lemma_selection_commutes(
    rows: Seq<RecordView>,
    change: spec_fn(RecordView) -> RecordView,
    pred: spec_fn(RecordView) -> bool,
)
    requires
        forall|r: RecordView| pred(#[trigger] change(r)) == pred(r),
    ensures
        rows.map_values(change).filter(pred) == rows.filter(pred).map_values(change),
    decreases rows.len(),
{
    reveal(Seq::filter);
    if rows.len() == 0 {
        assert(rows.map_values(change).filter(pred) =~= rows.filter(pred).map_values(change));
    } else {
        let rest = rows.drop_last();
        lemma_selection_commutes(rest, change, pred);
        assert(rows.map_values(change).drop_last() =~= rest.map_values(change));
        assert(rows.map_values(change).last() == change(rows.last()));
        assert(rows.map_values(change).filter(pred) =~= rows.filter(pred).map_values(change));
    }
}

/// A write leaves the table well formed.
pub proof fn law_write_keeps_table_well_formed(
    table: TableView,
    accepted: bool,
    key: Seq<char>,
    cid: Seq<char>,
    pk: Seq<char>,
)
    requires
        table.wf(),
    ensures
        table.written(accepted, key, cid, pk).0.wf(),
{
    let after = table.written(accepted, key, cid, pk).0;
    if accepted && table.created {
        if table.holds(key, pk) {
            crate::table::lemma_execute_wf(
                table,
                crate::query::CommandView::UpdateRecord { key, owner_pk: pk, cid },
            );
        } else {
            crate::table::lemma_execute_wf(
                table,
                crate::query::CommandView::AddRecord { key, owner_pk: pk, cid },
            );
        }
    }
}

/// A write whose signature is not valid never creates or changes a record:
/// the table after it is the table before it, and the reply names the
/// ownership failure.
pub proof fn law_rejected_write_changes_nothing(
    table: TableView,
    key: Seq<char>,
    cid: Seq<char>,
    pk: Seq<char>,
)
    ensures
        table.written(false, key, cid, pk).0 == table,
        table.written(false, key, cid, pk).1 == FdbResultView::failed(not_owner_text()),
        table.written(false, key, cid, pk).1 == FdbResultView::failed(ErrorView::Ownership.text()),
{
}

/// The first authorized write for a key and an owner creates exactly one
/// record: it holds the given content identifier under the next identifier,
/// it is the only record of that owner under that key, and every older
/// record stays as it was. The table has to exist and to have an identifier
/// left.
pub proof fn law_first_write_creates_one_record(
    table: TableView,
    key: Seq<char>,
    cid: Seq<char>,
    pk: Seq<char>,
)
    requires
        table.wf(),
        table.created,
        table.last_id < i64::MAX,
        !table.holds(key, pk),
    ensures
        ({
            let (after, reply) = table.written(true, key, cid, pk);
            let created = RecordView { uuid: (table.last_id + 1) as i64, key, cid, public_key: pk };
            &&& reply == FdbResultView::ok()
            &&& after.rows == table.rows.push(created)
            &&& after.by_pk_and_key(key, pk) == seq![created]
        }),
{
    let after = table.written(true, key, cid, pk).0;
    let created = RecordView { uuid: (table.last_id + 1) as i64, key, cid, public_key: pk };
    let pred = selects(Some(key), Some(pk));
    lemma_holds_iff_found(table, key, pk);
    lemma_filter_push(table.rows, created, pred);
    assert(pred(created));
    assert(after.by_pk_and_key(key, pk) =~= seq![created]);
}

/// An authorized write for a key and an owner that hold a record already
/// leaves them with that one record: it has the new content identifier and
/// the identifier, key and owner that it had; no record is added.
pub proof fn law_later_write_updates_in_place(
    table: TableView,
    key: Seq<char>,
    cid: Seq<char>,
    pk: Seq<char>,
)
    requires
        table.wf(),
        table.created,
        table.holds(key, pk),
    ensures
        ({
            let (after, reply) = table.written(true, key, cid, pk);
            let before = table.by_pk_and_key(key, pk);
            &&& reply == FdbResultView::ok()
            &&& before.len() == 1
            &&& after.by_pk_and_key(key, pk) == seq![RecordView { cid, ..before[0] }]
            &&& after.rows.len() == table.rows.len()
            &&& after.last_id == table.last_id
        }),
{
    let after = table.written(true, key, cid, pk).0;
    let before = table.by_pk_and_key(key, pk);
    let pred = selects(Some(key), Some(pk));
    let change = with_cid(key, pk, cid);
    lemma_holds_iff_found(table, key, pk);
    lemma_unique_selection(table.rows, key, pk);
    table.rows.lemma_filter_pred(pred, 0);
    assert forall|r: RecordView| pred(#[trigger] change(r)) == pred(r) by {}
    lemma_selection_commutes(table.rows, change, pred);
    assert(before.map_values(change) =~= seq![RecordView { cid, ..before[0] }]);
}

/// Two authorized writes in a row for a key and an owner that held nothing:
/// after the second the owner holds one record under the key, with the
/// second content identifier and the identifier that the first write gave.
pub proof fn law_second_write_keeps_one_record(
    table: TableView,
    key: Seq<char>,
    first_cid: Seq<char>,
    second_cid: Seq<char>,
    pk: Seq<char>,
)
    requires
        table.wf(),
        table.created,
        table.last_id < i64::MAX,
        !table.holds(key, pk),
    ensures
        ({
            let first = table.written(true, key, first_cid, pk).0;
            let second = first.written(true, key, second_cid, pk).0;
            &&& first.by_pk_and_key(key, pk).len() == 1
            &&& second.by_pk_and_key(key, pk) == seq![
                RecordView {
                    uuid: first.by_pk_and_key(key, pk)[0].uuid,
                    key,
                    cid: second_cid,
                    public_key: pk,
                },
            ]
            &&& second.rows.len() == first.rows.len()
        }),
{
    let first = table.written(true, key, first_cid, pk).0;
    law_first_write_creates_one_record(table, key, first_cid, pk);
    law_write_keeps_table_well_formed(table, true, key, first_cid, pk);
    lemma_holds_iff_found(first, key, pk);
    law_later_write_updates_in_place(first, key, second_cid, pk);
}

/// A write changes no record of another key or another owner, and makes
/// none: what any other pair holds is what it held.
pub proof fn law_write_leaves_others_alone(
    table: TableView,
    accepted: bool,
    key: Seq<char>,
    cid: Seq<char>,
    pk: Seq<char>,
    other_key: Seq<char>,
    other_pk: Seq<char>,
)
    requires
        other_key != key || other_pk != pk,
    ensures
        table.written(accepted, key, cid, pk).0.by_pk_and_key(other_key, other_pk)
            == table.by_pk_and_key(other_key, other_pk),
{
    let after = table.written(accepted, key, cid, pk).0;
    let pred = selects(Some(other_key), Some(other_pk));
    if accepted && table.created {
        if table.holds(key, pk) {
            let change = with_cid(key, pk, cid);
            let kept = table.rows.filter(pred);
            assert forall|r: RecordView| pred(#[trigger] change(r)) == pred(r) by {}
            lemma_selection_commutes(table.rows, change, pred);
            assert forall|i: int| 0 <= i < kept.len() implies change(#[trigger] kept[i])
                == kept[i] by {
                table.rows.lemma_filter_pred(pred, i);
            }
            assert(kept.map_values(change) =~= kept);
        } else if table.last_id < i64::MAX {
            let created = RecordView { uuid: (table.last_id + 1) as i64, key, cid, public_key: pk };
            lemma_filter_push(table.rows, created, pred);
        }
    }
}

/// Listing a key shows the records of every owner under that key and no
/// other record, in the order of their creation; for a key under which
/// nothing was published it shows nothing.
pub proof fn law_listing_is_complete_and_ordered(table: TableView, key: Seq<char>)
    requires
        table.wf(),
        table.created,
    ensures
        table.listed(key) == Ok::<Seq<FdbDhtView>, ErrorView>(
            FdbDhtView::of_all(table.by_key(key)),
        ),
        forall|i: int|
            0 <= i < table.rows.len() && (#[trigger] table.rows[i]).key == key
                ==> table.by_key(key).contains(table.rows[i]),
        forall|j: int|
            0 <= j < table.by_key(key).len() ==> (#[trigger] table.by_key(key)[j]).key == key
                && table.rows.contains(table.by_key(key)[j]),
        forall|a: int, b: int|
            #![trigger table.by_key(key)[a], table.by_key(key)[b]]
            0 <= a < b < table.by_key(key).len() ==> table.by_key(key)[a].uuid < table.by_key(
                key,
            )[b].uuid,
        (forall|i: int| 0 <= i < table.rows.len() ==> (#[trigger] table.rows[i]).key != key)
            ==> table.listed(key) == Ok::<Seq<FdbDhtView>, ErrorView>(Seq::empty()),
{
    let pred = selects(Some(key), None);
    let kept = table.by_key(key);
    assert forall|i: int|
        0 <= i < table.rows.len() && (#[trigger] table.rows[i]).key == key implies kept.contains(
        table.rows[i],
    ) by {
        assert(pred(table.rows[i]));
        table.rows.lemma_filter_contains(pred, i);
    }
    assert forall|j: int| 0 <= j < kept.len() implies (#[trigger] kept[j]).key == key
        && table.rows.contains(kept[j]) by {
        table.rows.lemma_filter_pred(pred, j);
        assert(kept.contains(kept[j]));
        table.rows.lemma_filter_contains_rev(pred, kept[j]);
    }
    lemma_selection_ascends(table.rows, pred);
    if forall|i: int| 0 <= i < table.rows.len() ==> (#[trigger] table.rows[i]).key != key {
        if kept.len() > 0 {
            table.rows.lemma_filter_pred(pred, 0);
            assert(kept.contains(kept[0]));
            table.rows.lemma_filter_contains_rev(pred, kept[0]);
            let i = choose|i: int| 0 <= i < table.rows.len() && table.rows[i] == kept[0];
            assert(table.rows[i].key == key);
        }
        assert(FdbDhtView::of_all(kept) =~= Seq::<FdbDhtView>::empty());
    }
}

/// One attempt to write, as the store sees it.
pub struct Attempt {
    /// Whether the signature was found valid.
    pub accepted: bool,
    pub key: Seq<char>,
    pub cid: Seq<char>,
    pub public_key: Seq<char>,
}

/// The table after a run of attempts, the oldest first.
pub open spec fn replayed(table: TableView, attempts: Seq<Attempt>) -> TableView
    decreases attempts.len(),
{
    if attempts.len() == 0 {
        table
    } else {
        let last = attempts.last();
        replayed(table, attempts.drop_last()).written(
            last.accepted,
            last.key,
            last.cid,
            last.public_key,
        ).0
    }
}

/// The latest record of a key and an owner is absent where no write for them
/// went before: in a table that was created empty, after any run of writes
/// of which none was an accepted write for that key and owner.
pub proof fn law_latest_is_absent_without_write(
    attempts: Seq<Attempt>,
    key: Seq<char>,
    pk: Seq<char>,
)
    requires
        forall|i: int|
            0 <= i < attempts.len() ==> !((#[trigger] attempts[i]).accepted && attempts[i].key
                == key && attempts[i].public_key == pk),
    ensures
        replayed(TableView::fresh(), attempts).created,
        replayed(TableView::fresh(), attempts).by_pk_and_key(key, pk).len() == 0,
        replayed(TableView::fresh(), attempts).latest(key, pk) == Ok::<
            Option<FdbDhtView>,
            ErrorView,
        >(None),
    decreases attempts.len(),
{
    reveal(Seq::filter);
    if attempts.len() > 0 {
        let last = attempts.last();
        let earlier = attempts.drop_last();
        assert forall|i: int| 0 <= i < earlier.len() implies !((#[trigger] earlier[i]).accepted
            && earlier[i].key == key && earlier[i].public_key == pk) by {
            assert(earlier[i] == attempts[i]);
        }
        law_latest_is_absent_without_write(earlier, key, pk);
        let before = replayed(TableView::fresh(), earlier);
        assert(attempts[attempts.len() - 1] == last);
        if last.accepted {
            law_write_leaves_others_alone(
                before,
                true,
                last.key,
                last.cid,
                last.public_key,
                key,
                pk,
            );
        }
    }
}

/// In a table that exists, a pair that holds no record has no latest record.
pub proof fn law_latest_is_absent_where_nothing_is_held(
    table: TableView,
    key: Seq<char>,
    pk: Seq<char>,
)
    requires
        table.created,
        !table.holds(key, pk),
    ensures
        table.latest(key, pk) == Ok::<Option<FdbDhtView>, ErrorView>(None),
{
    lemma_holds_iff_found(table, key, pk);
}

/// Round trip: after an authorized write the latest record of its key and
/// owner shows the content identifier that was written. The table has to
/// exist, and to have an identifier left where the write makes a new record.
pub proof fn law_write_then_latest_round_trip(
    table: TableView,
    key: Seq<char>,
    cid: Seq<char>,
    pk: Seq<char>,
)
    requires
        table.wf(),
        table.created,
        table.holds(key, pk) || table.last_id < i64::MAX,
    ensures
        table.written(true, key, cid, pk).1 == FdbResultView::ok(),
        table.written(true, key, cid, pk).0.latest(key, pk) == Ok::<Option<FdbDhtView>, ErrorView>(
            Some(FdbDhtView { public_key: pk, cid, key }),
        ),
{
    if table.holds(key, pk) {
        law_later_write_updates_in_place(table, key, cid, pk);
        table.rows.lemma_filter_pred(selects(Some(key), Some(pk)), 0);
    } else {
        law_first_write_creates_one_record(table, key, cid, pk);
    }
}

} // verus!
