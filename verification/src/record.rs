//! Records: the slots of one line of a table, one for each column that the
//! section declares, in the declared order. A slot holds a value or nothing.
//!
//! The functions here are the model that `Event` and `Style` are stated
//! against. `T` is the type of the column tags.

use crate::assoc::{first_key, lemma_first_key};
use crate::text::join;
use crate::value::{value_text, Value, ValueView};
use vstd::prelude::*;

verus! {

/// One slot as it is stored.
pub open spec fn slot_view<T>(slot: (T, Option<Value>)) -> (T, Option<ValueView>) {
    (
        slot.0,
        match slot.1 {
            Some(v) => Some(v@),
            None => None,
        },
    )
}

/// The slots of a record as they are stored.
pub open spec fn slot_views<T>(slots: Seq<(T, Option<Value>)>) -> Seq<(T, Option<ValueView>)> {
    Seq::new(slots.len(), |i: int| slot_view(slots[i]))
}

/// The slots of a new record: one for each column of `order`, all empty.
pub open spec fn empty_slots<T>(order: Seq<T>) -> Seq<(T, Option<ValueView>)> {
    Seq::new(order.len(), |i: int| (order[i], None::<ValueView>))
}

/// The columns of a record, in their order.
pub open spec fn tags<T>(slots: Seq<(T, Option<ValueView>)>) -> Seq<T> {
    Seq::new(slots.len(), |i: int| slots[i].0)
}

/// The place of the first slot of the column `tag`, if there is one.
pub open spec fn first_slot<T>(slots: Seq<(T, Option<ValueView>)>, tag: T) -> Option<int> {
    first_key(slots, tag)
}

/// What the first slot of the column `tag` holds; nothing where there is no
/// such column.
pub open spec fn slot_value<T>(slots: Seq<(T, Option<ValueView>)>, tag: T) -> Option<ValueView> {
    match first_slot(slots, tag) {
        Some(i) => slots[i].1,
        None => None,
    }
}

/// The record with `content` in the first slot of the column `tag`; the same
/// record where there is no such column.
pub open spec fn with_slot<T>(
    slots: Seq<(T, Option<ValueView>)>,
    tag: T,
    content: Option<ValueView>,
) -> Seq<(T, Option<ValueView>)> {
    match first_slot(slots, tag) {
        Some(i) => slots.update(i, (tag, content)),
        None => slots,
    }
}

/// The smaller of two lengths.
pub open spec fn shorter(a: nat, b: nat) -> nat {
    if a <= b {
        a
    } else {
        b
    }
}

/// The record of the columns `order` after the first `n` fields were read
/// and stored, each under the column at its place: field 0 under column 0,
/// and so on. `read` says what a field's text stands for in a column. The
/// first field that cannot be read gives the error.
pub open spec fn filled<T>(
    order: Seq<T>,
    fields: Seq<Seq<char>>,
    n: nat,
    read: spec_fn(T, Seq<char>) -> Result<ValueView, crate::error::ErrorView>,
) -> Result<Seq<(T, Option<ValueView>)>, crate::error::ErrorView>
    decreases n,
{
    if n == 0 {
        Ok(empty_slots(order))
    } else {
        match filled(order, fields, (n - 1) as nat, read) {
            Err(e) => Err(e),
            Ok(slots) => match read(order[n - 1], fields[n - 1]) {
                Err(e) => Err(e),
                Ok(v) => Ok(with_slot(slots, order[n - 1], Some(v))),
            },
        }
    }
}

/// The record that a line of `fields` gives under the columns `order`: as
/// many fields are stored as there are both fields and columns.
pub open spec fn record_of<T>(
    order: Seq<T>,
    fields: Seq<Seq<char>>,
    read: spec_fn(T, Seq<char>) -> Result<ValueView, crate::error::ErrorView>,
) -> Result<Seq<(T, Option<ValueView>)>, crate::error::ErrorView> {
    filled(order, fields, shorter(order.len(), fields.len()), read)
}

/// A field that cannot be read stops the filling: every longer filling
/// gives the same error.
pub proof fn lemma_filled_error<T>(
    order: Seq<T>,
    fields: Seq<Seq<char>>,
    k: nat,
    n: nat,
    read: spec_fn(T, Seq<char>) -> Result<ValueView, crate::error::ErrorView>,
)
    requires
        k <= n,
        filled(order, fields, k, read) is Err,
    ensures
        filled(order, fields, n, read) == filled(order, fields, k, read),
    decreases n,
{
    if k < n {
        lemma_filled_error(order, fields, k, (n - 1) as nat, read);
    }
}

/// Filling a record changes neither its columns nor their order: a filled
/// record has the declared columns.
pub proof fn lemma_filled_tags<T>(
    order: Seq<T>,
    fields: Seq<Seq<char>>,
    n: nat,
    read: spec_fn(T, Seq<char>) -> Result<ValueView, crate::error::ErrorView>,
)
    ensures
        filled(order, fields, n, read) is Ok ==> tags(filled(order, fields, n, read)->Ok_0)
            == order,
    decreases n,
{
    if n == 0 {
        assert(tags(empty_slots(order)) =~= order);
    } else {
        lemma_filled_tags(order, fields, (n - 1) as nat, read);
        match filled(order, fields, (n - 1) as nat, read) {
            Ok(slots) => match read(order[n - 1], fields[n - 1]) {
                Ok(v) => {
                    lemma_with_slot(slots, order[n - 1], Some(v));
                },
                Err(_) => {},
            },
            Err(_) => {},
        }
    }
}

/// The texts of the slots, an empty slot written as the default of its
/// column.
pub open spec fn slot_texts<T>(
    slots: Seq<(T, Option<ValueView>)>,
    default: spec_fn(T) -> ValueView,
) -> Seq<Seq<char>> {
    Seq::new(
        slots.len(),
        |i: int|
            match slots[i].1 {
                Some(v) => value_text(v),
                None => value_text(default(slots[i].0)),
            },
    )
}

/// The fields of a record as one text, separated by commas: as many fields
/// as the record has slots.
pub open spec fn record_text<T>(
    slots: Seq<(T, Option<ValueView>)>,
    default: spec_fn(T) -> ValueView,
) -> Seq<char> {
    join(slot_texts(slots, default), seq![','])
}

/// A record is written with one field for each of its slots, set or unset.
pub proof fn lemma_record_width<T>(
    slots: Seq<(T, Option<ValueView>)>,
    default: spec_fn(T) -> ValueView,
)
    ensures
        slot_texts(slots, default).len() == slots.len(),
        tags(slots).len() == slots.len(),
{
}

/// The first slot of a column is a slot of that column, and none before it
/// is.
pub proof fn lemma_first_slot<T>(slots: Seq<(T, Option<ValueView>)>, tag: T)
    ensures
        match first_slot(slots, tag) {
            Some(i) => 0 <= i < slots.len() && slots[i].0 == tag && forall|j: int|
                0 <= j < i ==> (#[trigger] slots[j]).0 != tag,
            None => forall|j: int| 0 <= j < slots.len() ==> (#[trigger] slots[j]).0 != tag,
        },
{
    lemma_first_key(slots, tag);
}

/// A slot of the column `tag` with none of that column before it is the
/// first one.
pub proof fn lemma_first_slot_at<T>(slots: Seq<(T, Option<ValueView>)>, tag: T, i: int)
    requires
        0 <= i < slots.len(),
        slots[i].0 == tag,
        forall|j: int| 0 <= j < i ==> (#[trigger] slots[j]).0 != tag,
    ensures
        first_slot(slots, tag) == Some(i),
{
    lemma_first_slot(slots, tag);
}

/// A record without a slot of the column `tag` has no first one.
pub proof fn lemma_no_slot<T>(slots: Seq<(T, Option<ValueView>)>, tag: T)
    requires
        forall|j: int| 0 <= j < slots.len() ==> (#[trigger] slots[j]).0 != tag,
    ensures
        first_slot(slots, tag) is None,
{
    lemma_first_slot(slots, tag);
}

/// Filling or emptying a slot changes neither the columns of a record nor
/// their order, and what is put into a column that the record has is read
/// back from it.
pub proof fn lemma_with_slot<T>(
    slots: Seq<(T, Option<ValueView>)>,
    tag: T,
    content: Option<ValueView>,
)
    ensures
        tags(with_slot(slots, tag, content)) == tags(slots),
        first_slot(slots, tag) is Some ==> slot_value(with_slot(slots, tag, content), tag)
            == content,
        first_slot(slots, tag) is None ==> with_slot(slots, tag, content) == slots,
{
    lemma_first_slot(slots, tag);
    let after = with_slot(slots, tag, content);
    assert(tags(after) =~= tags(slots));
    match first_slot(slots, tag) {
        Some(i) => {
            lemma_first_slot_at(after, tag, i);
        },
        None => {},
    }
}

} // verus!
