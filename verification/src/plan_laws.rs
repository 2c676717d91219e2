//! What holds of every folder plan.

use vstd::prelude::*;
use crate::hunk::{FolderChange, FolderHunkView, Side};
use crate::listing::{
    all_live, distinct_names, has_dead, has_live, has_name, lemma_place_of, lemma_with,
    lemma_without, place_of, Item,
};
use crate::settle::{folder_settled, folders_settled};
use crate::planner::{
    folder_creation, folder_creations, folder_deletion, folder_deletions, folder_plan,
};
use crate::strategy::StrategyView;

verus! {

/// How a store knows an item: not at all, live, or marked as deleted.
pub enum Presence {
    Absent,
    Live,
    Dead,
}

/// How `items` knows the item called `name`.
pub open spec fn presence(items: Seq<Item>, name: Seq<char>) -> Presence {
    if has_live(items, name) {
        Presence::Live
    } else if has_dead(items, name) {
        Presence::Dead
    } else {
        Presence::Absent
    }
}

/// Whether a folder hunk affects the folder `name`.
pub open spec fn affects(name: Seq<char>) -> spec_fn(FolderHunkView) -> bool {
    |hunk: FolderHunkView| hunk.name == name
}

/// The hunks of `plan` that affect the folder `name`, in their order.
pub open spec fn folder_hunks_for(plan: Seq<FolderHunkView>, name: Seq<char>) -> Seq<
    FolderHunkView,
> {
    plan.filter(affects(name))
}

/// The hunks that one folder needs, by how each store knows it and by
/// whether the strategy selects it.
pub open spec fn folder_needs(
    name: Seq<char>,
    remote: Presence,
    cache: Presence,
    selected: bool,
) -> Seq<FolderHunkView> {
    if !selected {
        Seq::empty()
    } else {
        match (remote, cache) {
            (Presence::Live, Presence::Absent) => seq![
                FolderHunkView { name, target: Side::Cache, change: FolderChange::Create },
            ],
            (Presence::Absent, Presence::Live) => seq![
                FolderHunkView { name, target: Side::Remote, change: FolderChange::Create },
            ],
            (Presence::Dead, Presence::Live) => seq![
                FolderHunkView { name, target: Side::Cache, change: FolderChange::Delete },
            ],
            (Presence::Live, Presence::Dead) => seq![
                FolderHunkView { name, target: Side::Remote, change: FolderChange::Delete },
            ],
            _ => Seq::empty(),
        }
    }
}

/// No hunk, or the one hunk.
pub open spec fn zero_or_one<H>(hunk: Option<H>) -> Seq<H> {
    match hunk {
        Some(h) => seq![h],
        None => Seq::empty(),
    }
}

/// Of what a pass over a listing without repeated names produces, one hunk
/// for each item at most, the hunks that `about` keeps are those of the one
/// item called `name`.
pub proof fn lemma_part_by_name<A, H>(
    from: Seq<A>,
    item: spec_fn(A) -> Item,
    pick: spec_fn(A) -> Option<H>,
    about: spec_fn(H) -> bool,
    name: Seq<char>,
)
    requires
        distinct_names(from.map_values(item)),
        forall|a: A| (#[trigger] pick(a)).is_some() ==> (about(pick(a).unwrap()) <==> item(a).name == name),
    ensures
        from.filter_map(pick).filter(about) == if has_name(from.map_values(item), name) {
            zero_or_one(pick(from[place_of(from.map_values(item), name)]))
        } else {
            Seq::<H>::empty()
        },
    decreases from.len(),
{
    let items = from.map_values(item);
    if from.len() == 0 {
        assert(from.filter_map(pick) =~= Seq::<H>::empty());
        reveal(Seq::filter);
        assert(Seq::<H>::empty().filter(about) =~= Seq::<H>::empty());
    } else {
        let rest = from.drop_last();
        let last = from.last();
        let rest_items = rest.map_values(item);
        assert(rest_items =~= items.drop_last());
        assert(distinct_names(rest_items)) by {
            assert forall|i: int, j: int| 0 <= i < j < rest_items.len() implies (
            #[trigger] rest_items[i]).name != (#[trigger] rest_items[j]).name by {
                assert(items[i].name != items[j].name);
            }
        }
        lemma_part_by_name(rest, item, pick, about, name);
        let produced = rest.filter_map(pick);
        let tail = zero_or_one(pick(last));
        assert(from.filter_map(pick) =~= produced + tail);
        Seq::filter_distributes_over_add(produced, tail, about);
        assert(tail.filter(about) == if pick(last).is_some() && about(pick(last).unwrap()) {
            tail
        } else {
            Seq::<H>::empty()
        }) by {
            reveal(Seq::filter);
            if pick(last).is_some() {
                let h = pick(last).unwrap();
                assert(tail.drop_last() =~= Seq::<H>::empty());
                assert(tail.drop_last().filter(about) =~= Seq::<H>::empty());
                assert(tail.last() == h);
                if about(h) {
                    assert(tail.filter(about) =~= tail);
                } else {
                    assert(tail.filter(about) =~= Seq::<H>::empty());
                }
            } else {
                assert(tail.filter(about) =~= Seq::<H>::empty());
            }
        }
        let at = from.len() - 1;
        assert(items[at] == item(last));
        if item(last).name == name {
            lemma_place_of(items, at);
            assert(!has_name(rest_items, name)) by {
                if has_name(rest_items, name) {
                    let k = choose|k: int|
                        0 <= k < rest_items.len() && (#[trigger] rest_items[k]).name == name;
                    assert(items[k].name != items[at].name);
                }
            }
            assert(produced.filter(about) + tail.filter(about) =~= zero_or_one(pick(last)));
        } else {
            assert(tail.filter(about) =~= Seq::<H>::empty());
            assert(produced.filter(about) + tail.filter(about) =~= produced.filter(about));
            if has_name(rest_items, name) {
                let k = place_of(rest_items, name);
                assert(0 <= k < rest_items.len() && rest_items[k].name == name);
                assert(items[k].name == name);
                lemma_place_of(items, k);
                assert(from[k] == rest[k]);
            } else {
                assert(!has_name(items, name)) by {
                    if has_name(items, name) {
                        let k = choose|k: int|
                            0 <= k < items.len() && (#[trigger] items[k]).name == name;
                        assert(rest_items[k].name == name);
                    }
                }
            }
        }
    }
}

/// A listing of items lists its own items.
proof fn lemma_items_of_items(items: Seq<Item>)
    ensures
        items.map_values(|e: Item| e) == items,
{
    assert(items.map_values(|e: Item| e) =~= items);
}

/// The folder plan, folder by folder: the hunks that affect one folder are
/// those that its presence on both stores asks for, and no others.
pub proof fn law_folder_plan_by_name(
    remote: Seq<Item>,
    cache: Seq<Item>,
    strategy: StrategyView,
    name: Seq<char>,
)
    requires
        distinct_names(remote),
        distinct_names(cache),
    ensures
        folder_hunks_for(folder_plan(remote, cache, strategy), name) == folder_needs(
            name,
            presence(remote, name),
            presence(cache, name),
            strategy.selects(name),
        ),
{
    let about = affects(name);
    let same = |e: Item| e;
    lemma_items_of_items(remote);
    lemma_items_of_items(cache);
    let a = folder_creations(remote, cache, strategy, Side::Cache);
    let b = folder_creations(cache, remote, strategy, Side::Remote);
    let c = folder_deletions(remote, cache, strategy, Side::Cache);
    let d = folder_deletions(cache, remote, strategy, Side::Remote);
    lemma_part_by_name(
        remote,
        same,
        |folder: Item| folder_creation(folder, cache, strategy, Side::Cache),
        about,
        name,
    );
    lemma_part_by_name(
        cache,
        same,
        |folder: Item| folder_creation(folder, remote, strategy, Side::Remote),
        about,
        name,
    );
    lemma_part_by_name(
        remote,
        same,
        |folder: Item| folder_deletion(folder, cache, strategy, Side::Cache),
        about,
        name,
    );
    lemma_part_by_name(
        cache,
        same,
        |folder: Item| folder_deletion(folder, remote, strategy, Side::Remote),
        about,
        name,
    );
    Seq::filter_distributes_over_add(a, b, about);
    Seq::filter_distributes_over_add(a + b, c, about);
    Seq::filter_distributes_over_add(a + b + c, d, about);
    if has_name(remote, name) {
        let at = place_of(remote, name);
        assert(0 <= at < remote.len() && remote[at].name == name);
        lemma_place_of(remote, at);
    }
    if has_name(cache, name) {
        let at = place_of(cache, name);
        assert(0 <= at < cache.len() && cache[at].name == name);
        lemma_place_of(cache, at);
    }
    assert(folder_hunks_for(folder_plan(remote, cache, strategy), name) =~= folder_needs(
        name,
        presence(remote, name),
        presence(cache, name),
        strategy.selects(name),
    ));
}

/// With every folder selected and none marked as deleted, the plan holds
/// exactly one hunk for each folder that only one store lists, its creation
/// on the other store, and no hunk for a folder that both list.
pub proof fn law_plan_covers_difference(remote: Seq<Item>, cache: Seq<Item>)
    requires
        distinct_names(remote),
        distinct_names(cache),
        all_live(remote),
        all_live(cache),
    ensures
        forall|name: Seq<char>|
            has_name(remote, name) && !has_name(cache, name) ==> #[trigger] folder_hunks_for(
                folder_plan(remote, cache, StrategyView::All),
                name,
            ) == seq![FolderHunkView { name, target: Side::Cache, change: FolderChange::Create }],
        forall|name: Seq<char>|
            has_name(cache, name) && !has_name(remote, name) ==> #[trigger] folder_hunks_for(
                folder_plan(remote, cache, StrategyView::All),
                name,
            ) == seq![FolderHunkView { name, target: Side::Remote, change: FolderChange::Create }],
        forall|name: Seq<char>|
            has_name(remote, name) == has_name(cache, name) ==> #[trigger] folder_hunks_for(
                folder_plan(remote, cache, StrategyView::All),
                name,
            ) == Seq::<FolderHunkView>::empty(),
{
    assert forall|name: Seq<char>|
        #![trigger folder_hunks_for(folder_plan(remote, cache, StrategyView::All), name)]
        true implies {
        &&& has_name(remote, name) && !has_name(cache, name) ==> folder_hunks_for(
            folder_plan(remote, cache, StrategyView::All),
            name,
        ) == seq![FolderHunkView { name, target: Side::Cache, change: FolderChange::Create }]
        &&& has_name(cache, name) && !has_name(remote, name) ==> folder_hunks_for(
            folder_plan(remote, cache, StrategyView::All),
            name,
        ) == seq![FolderHunkView { name, target: Side::Remote, change: FolderChange::Create }]
        &&& has_name(remote, name) == has_name(cache, name) ==> folder_hunks_for(
            folder_plan(remote, cache, StrategyView::All),
            name,
        ) == Seq::<FolderHunkView>::empty()
    } by {
        law_folder_plan_by_name(remote, cache, StrategyView::All, name);
    }
}

/// No plan holds a hunk for a folder that the strategy leaves out: under a
/// strategy that includes some folders, every hunk names one of them; under
/// one that excludes some, no hunk names one of them.
pub proof fn law_plan_keeps_to_selection(
    remote: Seq<Item>,
    cache: Seq<Item>,
    strategy: StrategyView,
)
    ensures
        forall|i: int|
            0 <= i < folder_plan(remote, cache, strategy).len() ==> strategy.selects(
                (#[trigger] folder_plan(remote, cache, strategy)[i]).name,
            ),
{
    let plan = folder_plan(remote, cache, strategy);
    let a = folder_creations(remote, cache, strategy, Side::Cache);
    let b = folder_creations(cache, remote, strategy, Side::Remote);
    let c = folder_deletions(remote, cache, strategy, Side::Cache);
    let d = folder_deletions(cache, remote, strategy, Side::Remote);
    assert forall|i: int| 0 <= i < plan.len() implies strategy.selects((#[trigger] plan[i]).name) by {
        let hunk = plan[i];
        if i < a.len() {
            assert(a[i] == hunk);
            assert(a.contains(hunk));
            remote.lemma_filter_map_contains(
                |folder: Item| folder_creation(folder, cache, strategy, Side::Cache),
                hunk,
            );
        } else if i < a.len() + b.len() {
            assert(b[i - a.len()] == hunk);
            assert(b.contains(hunk));
            cache.lemma_filter_map_contains(
                |folder: Item| folder_creation(folder, remote, strategy, Side::Remote),
                hunk,
            );
        } else if i < a.len() + b.len() + c.len() {
            assert(c[i - a.len() - b.len()] == hunk);
            assert(c.contains(hunk));
            remote.lemma_filter_map_contains(
                |folder: Item| folder_deletion(folder, cache, strategy, Side::Cache),
                hunk,
            );
        } else {
            assert(d[i - a.len() - b.len() - c.len()] == hunk);
            assert(d.contains(hunk));
            cache.lemma_filter_map_contains(
                |folder: Item| folder_deletion(folder, remote, strategy, Side::Remote),
                hunk,
            );
        }
    }
}

/// How a store knows a folder after a change to that folder took effect.
pub open spec fn presence_after(before: Presence, change: FolderChange) -> Presence {
    match change {
        FolderChange::Create => if before == Presence::Absent {
            Presence::Live
        } else {
            before
        },
        FolderChange::Delete => Presence::Absent,
    }
}

/// How the store `side` knows a folder after those of `hunks` that target
/// it took effect, in their order.
pub open spec fn presence_through(before: Presence, hunks: Seq<FolderHunkView>, side: Side) -> Presence
    decreases hunks.len(),
{
    if hunks.len() == 0 {
        before
    } else {
        let sofar = presence_through(before, hunks.drop_last(), side);
        if hunks.last().target == side {
            presence_after(sofar, hunks.last().change)
        } else {
            sofar
        }
    }
}

/// A hunk changes how the store knows the folder it names, and nothing of
/// any other folder.
pub proof fn lemma_folder_settled(items: Seq<Item>, hunk: FolderHunkView, name: Seq<char>)
    requires
        distinct_names(items),
    ensures
        distinct_names(folder_settled(items, hunk)),
        presence(folder_settled(items, hunk), name) == if hunk.name == name {
            presence_after(presence(items, name), hunk.change)
        } else {
            presence(items, name)
        },
{
    lemma_without(items, hunk.name, name);
    if !has_name(items, hunk.name) {
        lemma_with(items, Item { name: hunk.name, deleted: false }, name);
    }
    if has_name(items, name) {
        let at = place_of(items, name);
        assert(0 <= at < items.len() && items[at].name == name);
        lemma_place_of(items, at);
    }
}

/// A plan changes how a store knows a folder by the hunks that affect that
/// folder, and by no others.
pub proof fn lemma_folders_settled(
    items: Seq<Item>,
    plan: Seq<FolderHunkView>,
    side: Side,
    name: Seq<char>,
)
    requires
        distinct_names(items),
    ensures
        distinct_names(folders_settled(items, plan, side)),
        presence(folders_settled(items, plan, side), name) == presence_through(
            presence(items, name),
            folder_hunks_for(plan, name),
            side,
        ),
    decreases plan.len(),
{
    if plan.len() == 0 {
        reveal(Seq::filter);
        assert(folder_hunks_for(plan, name) =~= Seq::<FolderHunkView>::empty());
    } else {
        let rest = plan.drop_last();
        let last = plan.last();
        lemma_folders_settled(items, rest, side, name);
        let before = folders_settled(items, rest, side);
        lemma_folder_settled(before, last, name);
        assert(plan =~= rest.push(last));
        rest.lemma_filter_push(last, affects(name));
        let mine = folder_hunks_for(rest, name);
        if last.name == name {
            assert(folder_hunks_for(plan, name) == mine.push(last));
            assert(mine.push(last).drop_last() =~= mine);
            assert(mine.push(last).last() == last);
        }
    }
}

/// How a store knows a folder after the one hunk, or none, that the folder
/// needs.
proof fn lemma_presence_through_needs(
    before: Presence,
    name: Seq<char>,
    remote: Presence,
    cache: Presence,
    selected: bool,
    side: Side,
)
    ensures
        presence_through(before, folder_needs(name, remote, cache, selected), side) == {
            let needs = folder_needs(name, remote, cache, selected);
            if needs.len() == 1 && needs[0].target == side {
                presence_after(before, needs[0].change)
            } else {
                before
            }
        },
{
    let needs = folder_needs(name, remote, cache, selected);
    if needs.len() == 1 {
        assert(needs.drop_last() =~= Seq::<FolderHunkView>::empty());
        assert(needs.last() == needs[0]);
        reveal_with_fuel(presence_through, 2);
    }
}

/// A plan whose hunks have all taken effect leaves nothing to plan: the
/// folder plan of the two listings as they are afterwards is empty.
pub proof fn law_folder_plan_settles(remote: Seq<Item>, cache: Seq<Item>, strategy: StrategyView)
    requires
        distinct_names(remote),
        distinct_names(cache),
    ensures
        folder_plan(
            folders_settled(remote, folder_plan(remote, cache, strategy), Side::Remote),
            folders_settled(cache, folder_plan(remote, cache, strategy), Side::Cache),
            strategy,
        ) == Seq::<FolderHunkView>::empty(),
{
    let plan = folder_plan(remote, cache, strategy);
    let remote_after = folders_settled(remote, plan, Side::Remote);
    let cache_after = folders_settled(cache, plan, Side::Cache);
    let again = folder_plan(remote_after, cache_after, strategy);
    if again.len() > 0 {
        let name = again[0].name;
        let about = affects(name);
        assert(about(again[0]));
        again.lemma_filter_contains(about, 0);
        assert(folder_hunks_for(again, name).len() > 0);
        law_folder_plan_by_name(remote, cache, strategy, name);
        lemma_folders_settled(remote, plan, Side::Remote, name);
        lemma_folders_settled(cache, plan, Side::Cache, name);
        law_folder_plan_by_name(remote_after, cache_after, strategy, name);
        let selected = strategy.selects(name);
        lemma_presence_through_needs(
            presence(remote, name),
            name,
            presence(remote, name),
            presence(cache, name),
            selected,
            Side::Remote,
        );
        lemma_presence_through_needs(
            presence(cache, name),
            name,
            presence(remote, name),
            presence(cache, name),
            selected,
            Side::Cache,
        );
        assert(folder_hunks_for(again, name) =~= Seq::<FolderHunkView>::empty());
    }
    assert(again =~= Seq::<FolderHunkView>::empty());
}

} // verus!
