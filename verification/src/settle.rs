//! What a listing becomes once hunks have taken effect on its store.

use vstd::prelude::*;
use crate::hunk::{EnvelopeChange, EnvelopeHunkView, FolderChange, FolderHunkView, Side};
use crate::listing::{has_name, place_of, without, Item};
use crate::snapshot::{items_of, EnvelopeView};

verus! {

/// The folders of a store after `hunk` took effect on it. Creating a folder
/// whose name is listed, and deleting one that is not, change nothing.
pub open spec fn folder_settled(items: Seq<Item>, hunk: FolderHunkView) -> Seq<Item> {
    match hunk.change {
        FolderChange::Create => if has_name(items, hunk.name) {
            items
        } else {
            items.push(Item { name: hunk.name, deleted: false })
        },
        FolderChange::Delete => without(items, hunk.name),
    }
}

/// The folders of the store `side` after those hunks of `plan` that target
/// it took effect, in their order.
pub open spec fn folders_settled(items: Seq<Item>, plan: Seq<FolderHunkView>, side: Side) -> Seq<
    Item,
>
    decreases plan.len(),
{
    if plan.len() == 0 {
        items
    } else {
        let before = folders_settled(items, plan.drop_last(), side);
        if plan.last().target == side {
            folder_settled(before, plan.last())
        } else {
            before
        }
    }
}

/// The envelopes of a folder of a store after `hunk` took effect on it.
/// Creating an envelope whose identifier is listed changes nothing, and so
/// does updating or deleting one that is not listed.
pub open spec fn envelope_settled(envelopes: Seq<EnvelopeView>, hunk: EnvelopeHunkView) -> Seq<
    EnvelopeView,
> {
    let listed = has_name(items_of(envelopes), hunk.id);
    let at = place_of(items_of(envelopes), hunk.id);
    match hunk.change {
        EnvelopeChange::Create { flags, size, marker } => if listed {
            envelopes
        } else {
            envelopes.push(EnvelopeView { id: hunk.id, flags, size, marker, deleted: false })
        },
        EnvelopeChange::UpdateFlags { flags, marker } => if listed {
            envelopes.update(
                at,
                EnvelopeView {
                    id: envelopes[at].id,
                    flags,
                    size: envelopes[at].size,
                    marker,
                    deleted: envelopes[at].deleted,
                },
            )
        } else {
            envelopes
        },
        EnvelopeChange::Delete => if listed {
            envelopes.remove(at)
        } else {
            envelopes
        },
    }
}

/// The envelopes of a folder of the store `side` after those hunks of `plan`
/// that target it took effect, in their order.
pub open spec fn envelopes_settled(
    envelopes: Seq<EnvelopeView>,
    plan: Seq<EnvelopeHunkView>,
    side: Side,
) -> Seq<EnvelopeView>
    decreases plan.len(),
{
    if plan.len() == 0 {
        envelopes
    } else {
        let before = envelopes_settled(envelopes, plan.drop_last(), side);
        if plan.last().target == side {
            envelope_settled(before, plan.last())
        } else {
            before
        }
    }
}

} // verus!
