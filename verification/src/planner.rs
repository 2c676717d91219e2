//! The planner: from the listings of both stores to the patch that
//! reconciles them.

use vstd::prelude::*;
use crate::hunk::{
    EnvelopeChange, EnvelopeHunk, EnvelopeHunkView, FolderChange, FolderHunk, FolderHunkView, Side,
};
use crate::listing::{has_live, has_name, place_of, Item};
use crate::patch::{preview, Patch};
use crate::snapshot::{items_of, EnvelopeSnapshot, EnvelopeView, FolderSnapshot};
use crate::strategy::{FolderSyncStrategy, StrategyView};

verus! {

/// The hunk that a folder listed on one store asks for on the `other`: its
/// creation there, where it is live, selected and unknown to the other store.
pub open spec fn folder_creation(
    folder: Item,
    other: Seq<Item>,
    strategy: StrategyView,
    target: Side,
) -> Option<FolderHunkView> {
    if !folder.deleted && !has_name(other, folder.name) && strategy.selects(folder.name) {
        Some(FolderHunkView { name: folder.name, target, change: FolderChange::Create })
    } else {
        None
    }
}

/// The hunk that a folder listed on one store asks for on the `other`: its
/// deletion there, where it is marked as deleted, selected and live on the
/// other store. Absence alone never asks for a deletion.
pub open spec fn folder_deletion(
    folder: Item,
    other: Seq<Item>,
    strategy: StrategyView,
    target: Side,
) -> Option<FolderHunkView> {
    if folder.deleted && has_live(other, folder.name) && strategy.selects(folder.name) {
        Some(FolderHunkView { name: folder.name, target, change: FolderChange::Delete })
    } else {
        None
    }
}

/// The creations on `target` that the folders of `from` ask for, in the
/// order of `from`; `to` lists the folders of `target`.
pub open spec fn folder_creations(
    from: Seq<Item>,
    to: Seq<Item>,
    strategy: StrategyView,
    target: Side,
) -> Seq<FolderHunkView> {
    from.filter_map(|folder: Item| folder_creation(folder, to, strategy, target))
}

/// The deletions on `target` that the folders of `from` ask for, in the
/// order of `from`; `to` lists the folders of `target`.
pub open spec fn folder_deletions(
    from: Seq<Item>,
    to: Seq<Item>,
    strategy: StrategyView,
    target: Side,
) -> Seq<FolderHunkView> {
    from.filter_map(|folder: Item| folder_deletion(folder, to, strategy, target))
}

/// The folder hunks that reconcile two listings: creations before
/// deletions, those on the cache before those on the remote store.
pub open spec fn folder_plan(remote: Seq<Item>, cache: Seq<Item>, strategy: StrategyView) -> Seq<
    FolderHunkView,
> {
    folder_creations(remote, cache, strategy, Side::Cache) + folder_creations(
        cache,
        remote,
        strategy,
        Side::Remote,
    ) + folder_deletions(remote, cache, strategy, Side::Cache) + folder_deletions(
        cache,
        remote,
        strategy,
        Side::Remote,
    )
}

/// Appends to `patch` the creations on `target` that `from` asks for.
fn push_folder_creations(
    patch: &mut Patch<FolderHunk>,
    from: &FolderSnapshot,
    to: &FolderSnapshot,
    strategy: &FolderSyncStrategy,
    target: Side,
)
    ensures
        final(patch)@ == old(patch)@ + preview(folder_creations(from@, to@, strategy@, target)),
{
    let ghost start = patch@;
    let ghost pick = |folder: Item| folder_creation(folder, to@, strategy@, target);
    let n = from.len();
    let mut i: usize = 0;
    proof {
        assert(from@.take(0).filter_map(pick) =~= Seq::empty());
        assert(patch@ =~= start + preview(from@.take(0).filter_map(pick)));
    }
    while i < n
        invariant
            i <= n,
            n == from@.len(),
            pick == |folder: Item| folder_creation(folder, to@, strategy@, target),
            patch@ == start + preview(from@.take(i as int).filter_map(pick)),
        decreases n - i,
    {
        let entry = from.entry(i);
        proof {
            from@.lemma_filter_map_take_succ(pick, i as int);
        }
        let ghost before = from@.take(i as int).filter_map(pick);
        if !entry.deleted && to.position(&entry.name).is_none() && strategy.matches(&entry.name) {
            let hunk = FolderHunk::create(entry.name.clone(), target);
            patch.push(hunk, None);
            proof {
                assert(pick(from@[i as int]) == Some(hunk@));
                assert(preview(before + seq![hunk@]) =~= preview(before).push((hunk@, None)));
                assert(patch@ =~= start + preview(from@.take(i + 1).filter_map(pick)));
            }
        } else {
            proof {
                assert(pick(from@[i as int]).is_none());
                assert(before + Seq::<FolderHunkView>::empty() =~= before);
            }
        }
        i += 1;
    }
    proof {
        assert(from@.take(n as int) =~= from@);
    }
}

/// Appends to `patch` the deletions on `target` that `from` asks for.
fn push_folder_deletions(
    patch: &mut Patch<FolderHunk>,
    from: &FolderSnapshot,
    to: &FolderSnapshot,
    strategy: &FolderSyncStrategy,
    target: Side,
)
    ensures
        final(patch)@ == old(patch)@ + preview(folder_deletions(from@, to@, strategy@, target)),
{
    let ghost start = patch@;
    let ghost pick = |folder: Item| folder_deletion(folder, to@, strategy@, target);
    let n = from.len();
    let mut i: usize = 0;
    proof {
        assert(from@.take(0).filter_map(pick) =~= Seq::empty());
        assert(patch@ =~= start + preview(from@.take(0).filter_map(pick)));
    }
    while i < n
        invariant
            i <= n,
            n == from@.len(),
            pick == |folder: Item| folder_deletion(folder, to@, strategy@, target),
            patch@ == start + preview(from@.take(i as int).filter_map(pick)),
        decreases n - i,
    {
        let entry = from.entry(i);
        proof {
            from@.lemma_filter_map_take_succ(pick, i as int);
        }
        let ghost before = from@.take(i as int).filter_map(pick);
        if entry.deleted && to.status(&entry.name) == Some(false) && strategy.matches(&entry.name) {
            let hunk = FolderHunk::delete(entry.name.clone(), target);
            patch.push(hunk, None);
            proof {
                assert(pick(from@[i as int]) == Some(hunk@));
                assert(preview(before + seq![hunk@]) =~= preview(before).push((hunk@, None)));
                assert(patch@ =~= start + preview(from@.take(i + 1).filter_map(pick)));
            }
        } else {
            proof {
                assert(pick(from@[i as int]).is_none());
                assert(before + Seq::<FolderHunkView>::empty() =~= before);
            }
        }
        i += 1;
    }
    proof {
        assert(from@.take(n as int) =~= from@);
    }
}

/// A preview of hunks in a row is the row of their previews.
pub proof fn lemma_preview_add<V>(a: Seq<V>, b: Seq<V>)
    ensures
        preview(a + b) == preview(a) + preview(b),
{
    assert(preview(a + b) =~= preview(a) + preview(b));
}

/// Plans the folder pass: compares the folders of both stores and returns
/// the hunks that reconcile them, none of them applied.
///
/// A folder that only one store lists, live, is created on the other. A
/// folder that one store marks as deleted and the other lists live is
/// deleted there. A folder that the strategy leaves out gets no hunk, and a
/// folder that both stores list live gets none either.
pub fn plan_folders(
    remote: &FolderSnapshot,
    cache: &FolderSnapshot,
    strategy: &FolderSyncStrategy,
) -> (patch: Patch<FolderHunk>)
    ensures
        patch@ == preview(folder_plan(remote@, cache@, strategy@)),
{
    let mut patch: Patch<FolderHunk> = Patch::new();
    push_folder_creations(&mut patch, remote, cache, strategy, Side::Cache);
    push_folder_creations(&mut patch, cache, remote, strategy, Side::Remote);
    push_folder_deletions(&mut patch, remote, cache, strategy, Side::Cache);
    push_folder_deletions(&mut patch, cache, remote, strategy, Side::Remote);
    proof {
        let a = folder_creations(remote@, cache@, strategy@, Side::Cache);
        let b = folder_creations(cache@, remote@, strategy@, Side::Remote);
        let c = folder_deletions(remote@, cache@, strategy@, Side::Cache);
        let d = folder_deletions(cache@, remote@, strategy@, Side::Remote);
        lemma_preview_add(a, b);
        lemma_preview_add(a + b, c);
        lemma_preview_add(a + b + c, d);
        assert(patch@ =~= preview(a + b + c + d));
    }
    patch
}

/// The envelope listed under `id`, where one is.
pub open spec fn envelope_named(envelopes: Seq<EnvelopeView>, id: Seq<char>) -> EnvelopeView {
    envelopes[place_of(items_of(envelopes), id)]
}

/// The hunk that an envelope listed on one store asks for on the `other`:
/// its creation there, where it is live and unknown to the other store.
pub open spec fn envelope_creation(
    folder: Seq<char>,
    envelope: EnvelopeView,
    other: Seq<EnvelopeView>,
    target: Side,
) -> Option<EnvelopeHunkView> {
    if !envelope.deleted && !has_name(items_of(other), envelope.id) {
        Some(
            EnvelopeHunkView {
                folder,
                id: envelope.id,
                target,
                change: EnvelopeChange::Create {
                    flags: envelope.flags,
                    size: envelope.size,
                    marker: envelope.marker,
                },
            },
        )
    } else {
        None
    }
}

/// The hunk that an envelope of the remote store asks for where the cache
/// lists it too, both live, with other flags: the flags of the store whose
/// marker is later replace those of the other. With equal markers the remote
/// store, which is the authority, wins.
pub open spec fn envelope_update(
    folder: Seq<char>,
    envelope: EnvelopeView,
    cache: Seq<EnvelopeView>,
) -> Option<EnvelopeHunkView> {
    let twin = envelope_named(cache, envelope.id);
    if !envelope.deleted && has_live(items_of(cache), envelope.id) && twin.flags
        != envelope.flags {
        if twin.marker > envelope.marker {
            Some(
                EnvelopeHunkView {
                    folder,
                    id: envelope.id,
                    target: Side::Remote,
                    change: EnvelopeChange::UpdateFlags { flags: twin.flags, marker: twin.marker },
                },
            )
        } else {
            Some(
                EnvelopeHunkView {
                    folder,
                    id: envelope.id,
                    target: Side::Cache,
                    change: EnvelopeChange::UpdateFlags {
                        flags: envelope.flags,
                        marker: envelope.marker,
                    },
                },
            )
        }
    } else {
        None
    }
}

/// The hunk that an envelope listed on one store asks for on the `other`:
/// its deletion there, where it is marked as deleted and live on the other
/// store. Absence alone never asks for a deletion.
pub open spec fn envelope_deletion(
    folder: Seq<char>,
    envelope: EnvelopeView,
    other: Seq<EnvelopeView>,
    target: Side,
) -> Option<EnvelopeHunkView> {
    if envelope.deleted && has_live(items_of(other), envelope.id) {
        Some(
            EnvelopeHunkView {
                folder,
                id: envelope.id,
                target,
                change: EnvelopeChange::Delete,
            },
        )
    } else {
        None
    }
}

/// The creations on `target` that the envelopes of `from` ask for, in the
/// order of `from`; `to` lists the envelopes of `target`.
pub open spec fn envelope_creations(
    folder: Seq<char>,
    from: Seq<EnvelopeView>,
    to: Seq<EnvelopeView>,
    target: Side,
) -> Seq<EnvelopeHunkView> {
    from.filter_map(|envelope: EnvelopeView| envelope_creation(folder, envelope, to, target))
}

/// The flag updates that the envelopes of the remote store ask for, in the
/// order of the remote listing.
pub open spec fn envelope_updates(
    folder: Seq<char>,
    remote: Seq<EnvelopeView>,
    cache: Seq<EnvelopeView>,
) -> Seq<EnvelopeHunkView> {
    remote.filter_map(|envelope: EnvelopeView| envelope_update(folder, envelope, cache))
}

/// The deletions on `target` that the envelopes of `from` ask for, in the
/// order of `from`; `to` lists the envelopes of `target`.
pub open spec fn envelope_deletions(
    folder: Seq<char>,
    from: Seq<EnvelopeView>,
    to: Seq<EnvelopeView>,
    target: Side,
) -> Seq<EnvelopeHunkView> {
    from.filter_map(|envelope: EnvelopeView| envelope_deletion(folder, envelope, to, target))
}

/// The envelope hunks that reconcile two listings of one folder: creations
/// before updates before deletions.
pub open spec fn envelope_plan(
    folder: Seq<char>,
    remote: Seq<EnvelopeView>,
    cache: Seq<EnvelopeView>,
) -> Seq<EnvelopeHunkView> {
    envelope_creations(folder, remote, cache, Side::Cache) + envelope_creations(
        folder,
        cache,
        remote,
        Side::Remote,
    ) + envelope_updates(folder, remote, cache) + envelope_deletions(
        folder,
        remote,
        cache,
        Side::Cache,
    ) + envelope_deletions(folder, cache, remote, Side::Remote)
}

/// Appends to `patch` the creations on `target` that `from` asks for.
fn push_envelope_creations(
    patch: &mut Patch<EnvelopeHunk>,
    folder: &String,
    from: &EnvelopeSnapshot,
    to: &EnvelopeSnapshot,
    target: Side,
)
    ensures
        final(patch)@ == old(patch)@ + preview(envelope_creations(folder@, from@, to@, target)),
{
    let ghost start = patch@;
    let ghost pick = |envelope: EnvelopeView| envelope_creation(folder@, envelope, to@, target);
    let n = from.len();
    let mut i: usize = 0;
    proof {
        assert(from@.take(0).filter_map(pick) =~= Seq::empty());
        assert(patch@ =~= start + preview(from@.take(0).filter_map(pick)));
    }
    while i < n
        invariant
            i <= n,
            n == from@.len(),
            pick == |envelope: EnvelopeView| envelope_creation(folder@, envelope, to@, target),
            patch@ == start + preview(from@.take(i as int).filter_map(pick)),
        decreases n - i,
    {
        let entry = from.entry(i);
        proof {
            from@.lemma_filter_map_take_succ(pick, i as int);
        }
        let ghost before = from@.take(i as int).filter_map(pick);
        if !entry.deleted && to.find(&entry.id).is_none() {
            let hunk = EnvelopeHunk {
                folder: folder.clone(),
                id: entry.id.clone(),
                target,
                change: EnvelopeChange::Create {
                    flags: entry.flags,
                    size: entry.size,
                    marker: entry.marker,
                },
            };
            patch.push(hunk, None);
            proof {
                assert(pick(from@[i as int]) == Some(hunk@));
                assert(preview(before + seq![hunk@]) =~= preview(before).push((hunk@, None)));
                assert(patch@ =~= start + preview(from@.take(i + 1).filter_map(pick)));
            }
        } else {
            proof {
                assert(pick(from@[i as int]).is_none());
                assert(before + Seq::<EnvelopeHunkView>::empty() =~= before);
            }
        }
        i += 1;
    }
    proof {
        assert(from@.take(n as int) =~= from@);
    }
}

/// Appends to `patch` the flag updates that the remote listing asks for.
fn push_envelope_updates(
    patch: &mut Patch<EnvelopeHunk>,
    folder: &String,
    remote: &EnvelopeSnapshot,
    cache: &EnvelopeSnapshot,
)
    ensures
        final(patch)@ == old(patch)@ + preview(envelope_updates(folder@, remote@, cache@)),
{
    let ghost start = patch@;
    let ghost pick = |envelope: EnvelopeView| envelope_update(folder@, envelope, cache@);
    let n = remote.len();
    let mut i: usize = 0;
    proof {
        assert(remote@.take(0).filter_map(pick) =~= Seq::empty());
        assert(patch@ =~= start + preview(remote@.take(0).filter_map(pick)));
    }
    while i < n
        invariant
            i <= n,
            n == remote@.len(),
            pick == |envelope: EnvelopeView| envelope_update(folder@, envelope, cache@),
            patch@ == start + preview(remote@.take(i as int).filter_map(pick)),
        decreases n - i,
    {
        let entry = remote.entry(i);
        proof {
            remote@.lemma_filter_map_take_succ(pick, i as int);
        }
        let ghost before = remote@.take(i as int).filter_map(pick);
        let mut found: Option<EnvelopeHunk> = None;
        if !entry.deleted {
            match cache.find(&entry.id) {
                None => {},
                Some(twin) => {
                    if !twin.deleted && twin.flags != entry.flags {
                        let (target, flags, marker) = if twin.marker > entry.marker {
                            (Side::Remote, twin.flags, twin.marker)
                        } else {
                            (Side::Cache, entry.flags, entry.marker)
                        };
                        found =
                        Some(
                            EnvelopeHunk {
                                folder: folder.clone(),
                                id: entry.id.clone(),
                                target,
                                change: EnvelopeChange::UpdateFlags { flags, marker },
                            },
                        );
                    }
                },
            }
        }
        match found {
            Some(hunk) => {
                proof {
                    assert(pick(remote@[i as int]) == Some(hunk@));
                }
                let ghost added = hunk@;
                patch.push(hunk, None);
                proof {
                    assert(preview(before + seq![added]) =~= preview(before).push((added, None)));
                    assert(patch@ =~= start + preview(remote@.take(i + 1).filter_map(pick)));
                }
            },
            None => {
                proof {
                    assert(pick(remote@[i as int]).is_none());
                    assert(before + Seq::<EnvelopeHunkView>::empty() =~= before);
                }
            },
        }
        i += 1;
    }
    proof {
        assert(remote@.take(n as int) =~= remote@);
    }
}

/// Appends to `patch` the deletions on `target` that `from` asks for.
fn push_envelope_deletions(
    patch: &mut Patch<EnvelopeHunk>,
    folder: &String,
    from: &EnvelopeSnapshot,
    to: &EnvelopeSnapshot,
    target: Side,
)
    ensures
        final(patch)@ == old(patch)@ + preview(envelope_deletions(folder@, from@, to@, target)),
{
    let ghost start = patch@;
    let ghost pick = |envelope: EnvelopeView| envelope_deletion(folder@, envelope, to@, target);
    let n = from.len();
    let mut i: usize = 0;
    proof {
        assert(from@.take(0).filter_map(pick) =~= Seq::empty());
        assert(patch@ =~= start + preview(from@.take(0).filter_map(pick)));
    }
    while i < n
        invariant
            i <= n,
            n == from@.len(),
            pick == |envelope: EnvelopeView| envelope_deletion(folder@, envelope, to@, target),
            patch@ == start + preview(from@.take(i as int).filter_map(pick)),
        decreases n - i,
    {
        let entry = from.entry(i);
        proof {
            from@.lemma_filter_map_take_succ(pick, i as int);
        }
        let ghost before = from@.take(i as int).filter_map(pick);
        let live_there = match to.find(&entry.id) {
            Some(twin) => !twin.deleted,
            None => false,
        };
        if entry.deleted && live_there {
            let hunk = EnvelopeHunk {
                folder: folder.clone(),
                id: entry.id.clone(),
                target,
                change: EnvelopeChange::Delete,
            };
            patch.push(hunk, None);
            proof {
                assert(pick(from@[i as int]) == Some(hunk@));
                assert(preview(before + seq![hunk@]) =~= preview(before).push((hunk@, None)));
                assert(patch@ =~= start + preview(from@.take(i + 1).filter_map(pick)));
            }
        } else {
            proof {
                assert(pick(from@[i as int]).is_none());
                assert(before + Seq::<EnvelopeHunkView>::empty() =~= before);
            }
        }
        i += 1;
    }
    proof {
        assert(from@.take(n as int) =~= from@);
    }
}

/// Plans the envelope pass of one folder: compares the envelopes that both
/// stores list under it and returns the hunks that reconcile them, none of
/// them applied.
///
/// An envelope that only one store lists, live, is created on the other. One
/// that both list live with different flags has the flags of the later
/// marker written to the other store. One that a store marks as deleted and
/// the other lists live is deleted there.
pub fn plan_envelopes(folder: &String, remote: &EnvelopeSnapshot, cache: &EnvelopeSnapshot) -> (patch:
    Patch<EnvelopeHunk>)
    ensures
        patch@ == preview(envelope_plan(folder@, remote@, cache@)),
{
    let mut patch: Patch<EnvelopeHunk> = Patch::new();
    push_envelope_creations(&mut patch, folder, remote, cache, Side::Cache);
    push_envelope_creations(&mut patch, folder, cache, remote, Side::Remote);
    push_envelope_updates(&mut patch, folder, remote, cache);
    push_envelope_deletions(&mut patch, folder, remote, cache, Side::Cache);
    push_envelope_deletions(&mut patch, folder, cache, remote, Side::Remote);
    proof {
        let a = envelope_creations(folder@, remote@, cache@, Side::Cache);
        let b = envelope_creations(folder@, cache@, remote@, Side::Remote);
        let c = envelope_updates(folder@, remote@, cache@);
        let d = envelope_deletions(folder@, remote@, cache@, Side::Cache);
        let e = envelope_deletions(folder@, cache@, remote@, Side::Remote);
        lemma_preview_add(a, b);
        lemma_preview_add(a + b, c);
        lemma_preview_add(a + b + c, d);
        lemma_preview_add(a + b + c + d, e);
        assert(patch@ =~= preview(a + b + c + d + e));
    }
    patch
}

} // verus!
