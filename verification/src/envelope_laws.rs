//! What holds of every envelope plan.

use vstd::prelude::*;
use crate::hunk::{EnvelopeChange, EnvelopeHunkView, Side};
use crate::listing::{
    distinct_names, has_live, has_name, lemma_place_of, lemma_with, lemma_without, place_of,
};
use crate::plan_laws::lemma_part_by_name;
use crate::planner::{
    envelope_creation, envelope_creations, envelope_deletion, envelope_deletions, envelope_named,
    envelope_plan, envelope_update, envelope_updates,
};
use crate::settle::{envelope_settled, envelopes_settled};
use crate::snapshot::{items_of, EnvelopeView};

verus! {

/// What a store lists under an identifier, if anything.
pub open spec fn listed(envelopes: Seq<EnvelopeView>, id: Seq<char>) -> Option<EnvelopeView> {
    if has_name(items_of(envelopes), id) {
        Some(envelope_named(envelopes, id))
    } else {
        None
    }
}

/// Whether an envelope hunk affects the envelope `id`.
pub open spec fn concerns(id: Seq<char>) -> spec_fn(EnvelopeHunkView) -> bool {
    |hunk: EnvelopeHunkView| hunk.id == id
}

/// The hunks of `plan` that affect the envelope `id`, in their order.
pub open spec fn envelope_hunks_for(plan: Seq<EnvelopeHunkView>, id: Seq<char>) -> Seq<
    EnvelopeHunkView,
> {
    plan.filter(concerns(id))
}

/// The creation on `target` of a copy of `envelope`.
pub open spec fn creation_from(folder: Seq<char>, envelope: EnvelopeView, target: Side) -> EnvelopeHunkView {
    EnvelopeHunkView {
        folder,
        id: envelope.id,
        target,
        change: EnvelopeChange::Create {
            flags: envelope.flags,
            size: envelope.size,
            marker: envelope.marker,
        },
    }
}

/// The update on `target` that gives an envelope the flags and the marker
/// of `envelope`.
pub open spec fn update_from(folder: Seq<char>, envelope: EnvelopeView, target: Side) -> EnvelopeHunkView {
    EnvelopeHunkView {
        folder,
        id: envelope.id,
        target,
        change: EnvelopeChange::UpdateFlags { flags: envelope.flags, marker: envelope.marker },
    }
}

/// The hunks that one envelope needs, by what each store lists under its
/// identifier.
pub open spec fn envelope_needs(
    folder: Seq<char>,
    id: Seq<char>,
    remote: Option<EnvelopeView>,
    cache: Option<EnvelopeView>,
) -> Seq<EnvelopeHunkView> {
    match (remote, cache) {
        (Some(r), None) => if r.deleted {
            Seq::empty()
        } else {
            seq![creation_from(folder, r, Side::Cache)]
        },
        (None, Some(c)) => if c.deleted {
            Seq::empty()
        } else {
            seq![creation_from(folder, c, Side::Remote)]
        },
        (Some(r), Some(c)) => if !r.deleted && !c.deleted {
            if r.flags == c.flags {
                Seq::empty()
            } else if c.marker > r.marker {
                seq![update_from(folder, EnvelopeView { id, ..c }, Side::Remote)]
            } else {
                seq![update_from(folder, r, Side::Cache)]
            }
        } else if r.deleted && !c.deleted {
            seq![EnvelopeHunkView { folder, id, target: Side::Cache, change: EnvelopeChange::Delete }]
        } else if !r.deleted && c.deleted {
            seq![EnvelopeHunkView { folder, id, target: Side::Remote, change: EnvelopeChange::Delete }]
        } else {
            Seq::empty()
        },
        (None, None) => Seq::empty(),
    }
}

/// What a listing without repeated identifiers lists under the identifier
/// of one of its envelopes is that envelope.
pub proof fn lemma_listed(envelopes: Seq<EnvelopeView>, at: int)
    requires
        distinct_names(items_of(envelopes)),
        0 <= at < envelopes.len(),
    ensures
        listed(envelopes, envelopes[at].id) == Some(envelopes[at]),
        has_live(items_of(envelopes), envelopes[at].id) == !envelopes[at].deleted,
{
    assert(items_of(envelopes)[at] == envelopes[at].item());
    lemma_place_of(items_of(envelopes), at);
}

/// A listing lists nothing under an identifier that none of its envelopes
/// has.
pub proof fn lemma_not_listed(envelopes: Seq<EnvelopeView>, id: Seq<char>)
    requires
        forall|k: int| 0 <= k < envelopes.len() ==> (#[trigger] envelopes[k]).id != id,
    ensures
        listed(envelopes, id).is_none(),
{
    if has_name(items_of(envelopes), id) {
        let k = choose|k: int|
            0 <= k < items_of(envelopes).len() && (#[trigger] items_of(envelopes)[k]).name == id;
        assert(envelopes[k].id == id);
    }
}

/// What is listed under an identifier is an envelope of the listing, with
/// that identifier.
pub proof fn lemma_listed_is_member(envelopes: Seq<EnvelopeView>, id: Seq<char>)
    requires
        listed(envelopes, id).is_some(),
    ensures
        0 <= place_of(items_of(envelopes), id) < envelopes.len(),
        envelopes[place_of(items_of(envelopes), id)].id == id,
        listed(envelopes, id) == Some(envelopes[place_of(items_of(envelopes), id)]),
{
    let items = items_of(envelopes);
    let at = place_of(items, id);
    assert(0 <= at < items.len() && items[at].name == id);
    assert(items[at] == envelopes[at].item());
}

/// The envelope plan, envelope by envelope: the hunks that affect one
/// envelope are those that its listing on both stores asks for, and no
/// others.
pub proof fn law_envelope_plan_by_id(
    folder: Seq<char>,
    remote: Seq<EnvelopeView>,
    cache: Seq<EnvelopeView>,
    id: Seq<char>,
)
    requires
        distinct_names(items_of(remote)),
        distinct_names(items_of(cache)),
    ensures
        envelope_hunks_for(envelope_plan(folder, remote, cache), id) == envelope_needs(
            folder,
            id,
            listed(remote, id),
            listed(cache, id),
        ),
{
    let about = concerns(id);
    let item = |e: EnvelopeView| e.item();
    assert(remote.map_values(item) =~= items_of(remote));
    assert(cache.map_values(item) =~= items_of(cache));
    let a = envelope_creations(folder, remote, cache, Side::Cache);
    let b = envelope_creations(folder, cache, remote, Side::Remote);
    let c = envelope_updates(folder, remote, cache);
    let d = envelope_deletions(folder, remote, cache, Side::Cache);
    let e = envelope_deletions(folder, cache, remote, Side::Remote);
    lemma_part_by_name(
        remote,
        item,
        |envelope: EnvelopeView| envelope_creation(folder, envelope, cache, Side::Cache),
        about,
        id,
    );
    lemma_part_by_name(
        cache,
        item,
        |envelope: EnvelopeView| envelope_creation(folder, envelope, remote, Side::Remote),
        about,
        id,
    );
    lemma_part_by_name(
        remote,
        item,
        |envelope: EnvelopeView| envelope_update(folder, envelope, cache),
        about,
        id,
    );
    lemma_part_by_name(
        remote,
        item,
        |envelope: EnvelopeView| envelope_deletion(folder, envelope, cache, Side::Cache),
        about,
        id,
    );
    lemma_part_by_name(
        cache,
        item,
        |envelope: EnvelopeView| envelope_deletion(folder, envelope, remote, Side::Remote),
        about,
        id,
    );
    Seq::filter_distributes_over_add(a, b, about);
    Seq::filter_distributes_over_add(a + b, c, about);
    Seq::filter_distributes_over_add(a + b + c, d, about);
    Seq::filter_distributes_over_add(a + b + c + d, e, about);
    if listed(remote, id).is_some() {
        lemma_listed_is_member(remote, id);
        lemma_listed(remote, place_of(items_of(remote), id));
    }
    if listed(cache, id).is_some() {
        lemma_listed_is_member(cache, id);
        lemma_listed(cache, place_of(items_of(cache), id));
    }
    assert(envelope_hunks_for(envelope_plan(folder, remote, cache), id) =~= envelope_needs(
        folder,
        id,
        listed(remote, id),
        listed(cache, id),
    ));
}

/// What a store lists under an identifier after a change to that envelope
/// took effect.
pub open spec fn listed_after(before: Option<EnvelopeView>, hunk: EnvelopeHunkView) -> Option<
    EnvelopeView,
> {
    match hunk.change {
        EnvelopeChange::Create { flags, size, marker } => match before {
            Some(envelope) => Some(envelope),
            None => Some(EnvelopeView { id: hunk.id, flags, size, marker, deleted: false }),
        },
        EnvelopeChange::UpdateFlags { flags, marker } => match before {
            Some(envelope) => Some(EnvelopeView { flags, marker, ..envelope }),
            None => None,
        },
        EnvelopeChange::Delete => None,
    }
}

/// What the store `side` lists under an identifier after those of `hunks`
/// that target it took effect, in their order.
pub open spec fn listed_through(
    before: Option<EnvelopeView>,
    hunks: Seq<EnvelopeHunkView>,
    side: Side,
) -> Option<EnvelopeView>
    decreases hunks.len(),
{
    if hunks.len() == 0 {
        before
    } else {
        let sofar = listed_through(before, hunks.drop_last(), side);
        if hunks.last().target == side {
            listed_after(sofar, hunks.last())
        } else {
            sofar
        }
    }
}

/// A hunk changes what the store lists under the identifier it names, and
/// nothing of any other envelope.
pub proof fn lemma_envelope_settled(
    envelopes: Seq<EnvelopeView>,
    hunk: EnvelopeHunkView,
    id: Seq<char>,
)
    requires
        distinct_names(items_of(envelopes)),
    ensures
        distinct_names(items_of(envelope_settled(envelopes, hunk))),
        listed(envelope_settled(envelopes, hunk), id) == if hunk.id == id {
            listed_after(listed(envelopes, id), hunk)
        } else {
            listed(envelopes, id)
        },
{
    let after = envelope_settled(envelopes, hunk);
    let items = items_of(envelopes);
    let known = has_name(items, hunk.id);
    let at = place_of(items, hunk.id);
    if known {
        lemma_listed_is_member(envelopes, hunk.id);
        lemma_listed(envelopes, at);
    }
    // Where the other identifier is listed before
    let there = listed(envelopes, id).is_some();
    let k = place_of(items, id);
    if there {
        lemma_listed_is_member(envelopes, id);
        lemma_listed(envelopes, k);
    }
    match hunk.change {
        EnvelopeChange::Create { flags, size, marker } => {
            if !known {
                let added = EnvelopeView { id: hunk.id, flags, size, marker, deleted: false };
                assert(items_of(after) =~= items.push(added.item()));
                lemma_with(items, added.item(), id);
                assert(after[envelopes.len() as int] == added);
                lemma_listed(after, envelopes.len() as int);
                if hunk.id != id {
                    if there {
                        assert(after[k] == envelopes[k]);
                        lemma_listed(after, k);
                    } else {
                        assert forall|j: int| 0 <= j < after.len() implies (
                        #[trigger] after[j]).id != id by {
                            if j < envelopes.len() {
                                assert(items[j].name == envelopes[j].id);
                            }
                        }
                        lemma_not_listed(after, id);
                    }
                }
            }
        },
        EnvelopeChange::UpdateFlags { flags, marker } => {
            if known {
                assert(items_of(after) =~= items);
                if hunk.id == id {
                    lemma_listed(after, at);
                } else if there {
                    assert(after[k] == envelopes[k]);
                    lemma_listed(after, k);
                }
            }
        },
        EnvelopeChange::Delete => {
            if known {
                assert(items_of(after) =~= items.remove(at));
                lemma_without(items, hunk.id, id);
                if hunk.id == id {
                } else if there {
                    let to = if k < at { k } else { k - 1 };
                    assert(after[to] == envelopes[k]);
                    lemma_listed(after, to);
                }
            }
        },
    }
}

/// A plan changes what a store lists under an identifier by the hunks that
/// affect that envelope, and by no others.
pub proof fn lemma_envelopes_settled(
    envelopes: Seq<EnvelopeView>,
    plan: Seq<EnvelopeHunkView>,
    side: Side,
    id: Seq<char>,
)
    requires
        distinct_names(items_of(envelopes)),
    ensures
        distinct_names(items_of(envelopes_settled(envelopes, plan, side))),
        listed(envelopes_settled(envelopes, plan, side), id) == listed_through(
            listed(envelopes, id),
            envelope_hunks_for(plan, id),
            side,
        ),
    decreases plan.len(),
{
    if plan.len() == 0 {
        reveal(Seq::filter);
        assert(envelope_hunks_for(plan, id) =~= Seq::<EnvelopeHunkView>::empty());
    } else {
        let rest = plan.drop_last();
        let last = plan.last();
        lemma_envelopes_settled(envelopes, rest, side, id);
        let before = envelopes_settled(envelopes, rest, side);
        lemma_envelope_settled(before, last, id);
        assert(plan =~= rest.push(last));
        rest.lemma_filter_push(last, concerns(id));
        let mine = envelope_hunks_for(rest, id);
        if last.id == id {
            assert(envelope_hunks_for(plan, id) == mine.push(last));
            assert(mine.push(last).drop_last() =~= mine);
            assert(mine.push(last).last() == last);
        }
    }
}

/// What a store lists under an identifier after the one hunk, or none, that
/// the envelope needs.
proof fn lemma_listed_through_needs(
    before: Option<EnvelopeView>,
    needs: Seq<EnvelopeHunkView>,
    side: Side,
)
    requires
        needs.len() <= 1,
    ensures
        listed_through(before, needs, side) == if needs.len() == 1 && needs[0].target == side {
            listed_after(before, needs[0])
        } else {
            before
        },
{
    if needs.len() == 1 {
        assert(needs.drop_last() =~= Seq::<EnvelopeHunkView>::empty());
        assert(needs.last() == needs[0]);
        reveal_with_fuel(listed_through, 2);
    }
}

/// A plan whose hunks have all taken effect leaves nothing to plan: the
/// envelope plan of the two listings as they are afterwards is empty.
pub proof fn law_envelope_plan_settles(
    folder: Seq<char>,
    remote: Seq<EnvelopeView>,
    cache: Seq<EnvelopeView>,
)
    requires
        distinct_names(items_of(remote)),
        distinct_names(items_of(cache)),
    ensures
        envelope_plan(
            folder,
            envelopes_settled(remote, envelope_plan(folder, remote, cache), Side::Remote),
            envelopes_settled(cache, envelope_plan(folder, remote, cache), Side::Cache),
        ) == Seq::<EnvelopeHunkView>::empty(),
{
    let plan = envelope_plan(folder, remote, cache);
    let remote_after = envelopes_settled(remote, plan, Side::Remote);
    let cache_after = envelopes_settled(cache, plan, Side::Cache);
    let again = envelope_plan(folder, remote_after, cache_after);
    if again.len() > 0 {
        let id = again[0].id;
        let about = concerns(id);
        assert(about(again[0]));
        again.lemma_filter_contains(about, 0);
        assert(envelope_hunks_for(again, id).len() > 0);
        law_envelope_plan_by_id(folder, remote, cache, id);
        lemma_envelopes_settled(remote, plan, Side::Remote, id);
        lemma_envelopes_settled(cache, plan, Side::Cache, id);
        law_envelope_plan_by_id(folder, remote_after, cache_after, id);
        let needs = envelope_needs(folder, id, listed(remote, id), listed(cache, id));
        lemma_listed_through_needs(listed(remote, id), needs, Side::Remote);
        lemma_listed_through_needs(listed(cache, id), needs, Side::Cache);
        if listed(remote, id).is_some() {
            lemma_listed_is_member(remote, id);
        }
        if listed(cache, id).is_some() {
            lemma_listed_is_member(cache, id);
        }
        assert(envelope_hunks_for(again, id) =~= Seq::<EnvelopeHunkView>::empty());
    }
    assert(again =~= Seq::<EnvelopeHunkView>::empty());
}

} // verus!
