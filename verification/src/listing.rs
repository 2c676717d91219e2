//! What both kinds of listing have in common: named items, each live or
//! marked as deleted, no name twice.

use vstd::prelude::*;

verus! {

/// One listed item: its name, and whether the store marks it as deleted.
pub struct Item {
    pub name: Seq<char>,
    pub deleted: bool,
}

/// Whether an item called `name` is listed, live or not.
pub open spec fn has_name(items: Seq<Item>, name: Seq<char>) -> bool {
    exists|i: int| 0 <= i < items.len() && (#[trigger] items[i]).name == name
}

/// Whether a live item called `name` is listed.
pub open spec fn has_live(items: Seq<Item>, name: Seq<char>) -> bool {
    exists|i: int| 0 <= i < items.len() && (#[trigger] items[i]).name == name && !items[i].deleted
}

/// Whether an item called `name` is listed and marked as deleted.
pub open spec fn has_dead(items: Seq<Item>, name: Seq<char>) -> bool {
    exists|i: int| 0 <= i < items.len() && (#[trigger] items[i]).name == name && items[i].deleted
}

/// No two items share a name.
pub open spec fn distinct_names(items: Seq<Item>) -> bool {
    forall|i: int, j: int|
        0 <= i < j < items.len() ==> (#[trigger] items[i]).name != (#[trigger] items[j]).name
}

/// No item is marked as deleted.
pub open spec fn all_live(items: Seq<Item>) -> bool {
    forall|i: int| 0 <= i < items.len() ==> !(#[trigger] items[i]).deleted
}

/// The place at which the item called `name` is listed, where one is.
pub open spec fn place_of(items: Seq<Item>, name: Seq<char>) -> int {
    choose|i: int| 0 <= i < items.len() && (#[trigger] items[i]).name == name
}

/// Where names are distinct, the place of a name is the one place that
/// holds it.
pub proof fn lemma_place_of(items: Seq<Item>, at: int)
    requires
        distinct_names(items),
        0 <= at < items.len(),
    ensures
        place_of(items, items[at].name) == at,
        has_name(items, items[at].name),
        has_live(items, items[at].name) == !items[at].deleted,
        has_dead(items, items[at].name) == items[at].deleted,
{
    let name = items[at].name;
    let found = place_of(items, name);
    assert(0 <= found < items.len() && items[found].name == name);
    if found != at {
        if found < at {
            assert(items[found].name != items[at].name);
        } else {
            assert(items[at].name != items[found].name);
        }
    }
    assert forall|i: int| 0 <= i < items.len() && (#[trigger] items[i]).name == name implies i
        == at by {
        if i < at {
            assert(items[i].name != items[at].name);
        } else if at < i {
            assert(items[at].name != items[i].name);
        }
    }
}

/// The listing without the item called `name`.
pub open spec fn without(items: Seq<Item>, name: Seq<char>) -> Seq<Item> {
    if has_name(items, name) {
        items.remove(place_of(items, name))
    } else {
        items
    }
}

/// Taking an item off a listing leaves the other items as they were, and
/// their names distinct.
pub proof fn lemma_without(items: Seq<Item>, name: Seq<char>, other: Seq<char>)
    requires
        distinct_names(items),
    ensures
        distinct_names(without(items, name)),
        !has_name(without(items, name), name),
        other != name ==> has_live(without(items, name), other) == has_live(items, other),
        other != name ==> has_dead(without(items, name), other) == has_dead(items, other),
        other != name ==> has_name(without(items, name), other) == has_name(items, other),
{
    if has_name(items, name) {
        let at = place_of(items, name);
        assert(0 <= at < items.len() && items[at].name == name);
        lemma_place_of(items, at);
        let rest = items.remove(at);
        assert forall|i: int, j: int| 0 <= i < j < rest.len() implies (#[trigger] rest[i]).name != (
        #[trigger] rest[j]).name by {
            let a = if i < at { i } else { i + 1 };
            let b = if j < at { j } else { j + 1 };
            assert(items[a].name != items[b].name);
        }
        if has_name(rest, name) {
            let k = choose|k: int| 0 <= k < rest.len() && (#[trigger] rest[k]).name == name;
            let a = if k < at { k } else { k + 1 };
            assert(items[a].name == name);
            if a < at {
                assert(items[a].name != items[at].name);
            } else {
                assert(items[at].name != items[a].name);
            }
        }
        if other != name {
            assert forall|k: int| 0 <= k < rest.len() implies (#[trigger] rest[k]) == items[if k
                < at {
                k
            } else {
                k + 1
            }] by {}
            if has_name(items, other) {
                let k = choose|k: int| 0 <= k < items.len() && (#[trigger] items[k]).name == other;
                assert(rest[if k < at { k } else { k - 1 }] == items[k]);
            }
            if has_live(items, other) {
                let k = choose|k: int|
                    0 <= k < items.len() && (#[trigger] items[k]).name == other
                        && !items[k].deleted;
                assert(rest[if k < at { k } else { k - 1 }] == items[k]);
            }
            if has_dead(items, other) {
                let k = choose|k: int|
                    0 <= k < items.len() && (#[trigger] items[k]).name == other
                        && items[k].deleted;
                assert(rest[if k < at { k } else { k - 1 }] == items[k]);
            }
            if has_name(rest, other) {
                let k = choose|k: int| 0 <= k < rest.len() && (#[trigger] rest[k]).name == other;
                assert(items[if k < at { k } else { k + 1 }].name == other);
            }
            if has_live(rest, other) {
                let k = choose|k: int|
                    0 <= k < rest.len() && (#[trigger] rest[k]).name == other && !rest[k].deleted;
                let a = if k < at { k } else { k + 1 };
                assert(items[a].name == other && !items[a].deleted);
            }
            if has_dead(rest, other) {
                let k = choose|k: int|
                    0 <= k < rest.len() && (#[trigger] rest[k]).name == other && rest[k].deleted;
                let a = if k < at { k } else { k + 1 };
                assert(items[a].name == other && items[a].deleted);
            }
        }
    }
}

/// Adding an item under a new name leaves the other items as they were, and
/// the names distinct.
pub proof fn lemma_with(items: Seq<Item>, added: Item, other: Seq<char>)
    requires
        distinct_names(items),
        !has_name(items, added.name),
    ensures
        distinct_names(items.push(added)),
        has_name(items.push(added), added.name),
        has_live(items.push(added), added.name) == !added.deleted,
        has_dead(items.push(added), added.name) == added.deleted,
        other != added.name ==> has_live(items.push(added), other) == has_live(items, other),
        other != added.name ==> has_dead(items.push(added), other) == has_dead(items, other),
        other != added.name ==> has_name(items.push(added), other) == has_name(items, other),
{
    let more = items.push(added);
    let at = items.len() as int;
    assert(more[at] == added);
    assert forall|i: int, j: int| 0 <= i < j < more.len() implies (#[trigger] more[i]).name != (
    #[trigger] more[j]).name by {
        if j == at {
            assert(items[i].name != added.name);
        } else {
            assert(items[i].name != items[j].name);
        }
    }
    lemma_place_of(more, at);
    if other != added.name {
        if has_name(items, other) {
            let k = choose|k: int| 0 <= k < items.len() && (#[trigger] items[k]).name == other;
            assert(more[k] == items[k]);
        }
        if has_live(items, other) {
            let k = choose|k: int|
                0 <= k < items.len() && (#[trigger] items[k]).name == other && !items[k].deleted;
            assert(more[k] == items[k]);
        }
        if has_dead(items, other) {
            let k = choose|k: int|
                0 <= k < items.len() && (#[trigger] items[k]).name == other && items[k].deleted;
            assert(more[k] == items[k]);
        }
        if has_name(more, other) {
            let k = choose|k: int| 0 <= k < more.len() && (#[trigger] more[k]).name == other;
            assert(items[k].name == other);
        }
        if has_live(more, other) {
            let k = choose|k: int|
                0 <= k < more.len() && (#[trigger] more[k]).name == other && !more[k].deleted;
            assert(items[k].name == other && !items[k].deleted);
        }
        if has_dead(more, other) {
            let k = choose|k: int|
                0 <= k < more.len() && (#[trigger] more[k]).name == other && more[k].deleted;
            assert(items[k].name == other && items[k].deleted);
        }
    }
}

} // verus!
