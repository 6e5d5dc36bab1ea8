//! The engine facade: spawning, despawning and asset loading, with the
//! deferred-apply frame discipline.
//!
//! The engine state models the host-owned world the callbacks reach into:
//! live entities with their type-erased component images, the spawns and
//! despawns deferred to the frame's end, and the asset table. A spawn issued
//! mid-frame leaves the live set untouched until `end_frame`, so queries
//! evaluated later the same frame do not see the new entity; a despawn
//! issued mid-frame likewise leaves the entity visible until `end_frame`.
//! Asset loading is idempotent: the same path always answers the same
//! handle, usable immediately.

use vstd::prelude::*;
use crate::components::AssetId;
use crate::components::EntityId;
use crate::descriptor::ComponentId;
use crate::names::clone_name;
use crate::names::name_eq;

verus! {

/// A type-erased view of one component value: its numeric type identity and
/// its byte image, whose length is the component's size.
pub struct ComponentRef {
    pub component_id: ComponentId,
    pub data: Vec<u8>,
}

/// One entity: its handle and its component set.
pub struct EntityRecord {
    pub entity: u64,
    pub components: Vec<ComponentRef>,
}

/// One loaded asset: its path and its handle.
pub struct AssetRecord {
    pub path: Vec<u8>,
    pub asset: u32,
}

/// The record holds a component of the given type.
pub open spec fn record_has(rec: EntityRecord, component: ComponentId) -> bool {
    exists|j: int|
        0 <= j < rec.components@.len() && (#[trigger] rec.components@[j]).component_id == component
}

/// `j` is the first slot of the record holding the given type.
pub open spec fn is_first_component_slot(rec: EntityRecord, component: ComponentId, j: int) -> bool {
    &&& 0 <= j < rec.components@.len()
    &&& rec.components@[j].component_id == component
    &&& forall|k: int| 0 <= k < j ==> (#[trigger] rec.components@[k]).component_id != component
}

/// An entity with this handle is live.
pub open spec fn has_live(live: Seq<EntityRecord>, entity: u64) -> bool {
    exists|i: int| 0 <= i < live.len() && (#[trigger] live[i]).entity == entity
}

/// `i` is the first live slot holding this handle.
pub open spec fn is_first_live_slot(live: Seq<EntityRecord>, entity: u64, i: int) -> bool {
    &&& 0 <= i < live.len()
    &&& live[i].entity == entity
    &&& forall|k: int| 0 <= k < i ==> (#[trigger] live[k]).entity != entity
}

/// An asset with this path is loaded.
pub open spec fn has_asset(assets: Seq<AssetRecord>, path: Seq<u8>) -> bool {
    exists|i: int| 0 <= i < assets.len() && (#[trigger] assets[i]).path@ == path
}

/// `i` is the first asset slot holding this path.
pub open spec fn is_first_asset_slot(assets: Seq<AssetRecord>, path: Seq<u8>, i: int) -> bool {
    &&& 0 <= i < assets.len()
    &&& assets[i].path@ == path
    &&& forall|k: int| 0 <= k < i ==> (#[trigger] assets[k]).path@ != path
}

/// The records that survive a frame boundary: those whose handle is not in
/// the despawn list, in their original order.
pub open spec fn retained(records: Seq<EntityRecord>, despawns: Seq<u64>) -> Seq<EntityRecord>
    decreases records.len(),
{
    if records.len() == 0 {
        Seq::empty()
    } else {
        let rest = retained(records.skip(1), despawns);
        if despawns.contains(records[0].entity) {
            rest
        } else {
            seq![records[0]] + rest
        }
    }
}

/// Every record of `retained` comes from the input, and a handle survives
/// exactly when it was there and is not despawned.
pub proof fn lemma_retained_membership(records: Seq<EntityRecord>, despawns: Seq<u64>)
    ensures
        forall|r: EntityRecord|
            #[trigger] retained(records, despawns).contains(r) <==> (records.contains(r)
                && !despawns.contains(r.entity)),
    decreases records.len(),
{
    if records.len() > 0 {
        lemma_retained_membership(records.skip(1), despawns);
        assert forall|r: EntityRecord|
            #[trigger] retained(records, despawns).contains(r) implies (records.contains(r)
            && !despawns.contains(r.entity)) by {
            if retained(records, despawns).contains(r) {
                if !despawns.contains(records[0].entity) && r == records[0] {
                    assert(records.contains(r)) by {
                        assert(records[0] == r);
                    }
                } else {
                    let all = retained(records, despawns);
                    let rest = retained(records.skip(1), despawns);
                    assert(rest.contains(r)) by {
                        let i = choose|i: int| 0 <= i < all.len() && all[i] == r;
                        if despawns.contains(records[0].entity) {
                            assert(rest[i] == r);
                        } else {
                            assert(all[0] == records[0]);
                            assert(i > 0);
                            assert(rest[i - 1] == r);
                        }
                    }
                    assert(records.skip(1).contains(r));
                    let i = choose|i: int| 0 <= i < records.skip(1).len() && records.skip(1)[i]
                        == r;
                    assert(records[i + 1] == r);
                }
            }
        }
        assert forall|r: EntityRecord|
            records.contains(r) && !despawns.contains(r.entity) implies #[trigger] retained(
            records,
            despawns,
        ).contains(r) by {
            let i = choose|i: int| 0 <= i < records.len() && records[i] == r;
            let rest = retained(records.skip(1), despawns);
            if i == 0 {
                assert(!despawns.contains(records[0].entity));
                assert(retained(records, despawns)[0] == r);
            } else {
                assert(records.skip(1)[i - 1] == r);
                assert(records.skip(1).contains(r));
                assert(rest.contains(r));
                let k = choose|k: int| 0 <= k < rest.len() && rest[k] == r;
                if despawns.contains(records[0].entity) {
                    assert(retained(records, despawns)[k] == r);
                } else {
                    assert(retained(records, despawns)[k + 1] == r);
                }
            }
        }
    }
}

/// The engine state. Constructed once at load; handles to it are valid only
/// for the duration of the callback invocation that issued them.
pub struct Engine {
    pub live: Vec<EntityRecord>,
    pub pending_spawns: Vec<EntityRecord>,
    pub pending_despawns: Vec<u64>,
    pub next_entity: u64,
    pub assets: Vec<AssetRecord>,
    pub next_asset: u32,
}

/// What `spawn` does: a fresh handle from the entity counter, the record
/// deferred to the pending list, and everything else — the live set above
/// all — untouched.
pub open spec fn spawn_post(
    pre: Engine,
    components: Vec<ComponentRef>,
    e: EntityId,
    post: Engine,
) -> bool {
    &&& e.0 == pre.next_entity
    &&& post.next_entity == pre.next_entity + 1
    &&& post.live == pre.live
    &&& post.pending_spawns@ == pre.pending_spawns@.push(
        EntityRecord { entity: e.0, components },
    )
    &&& post.pending_despawns == pre.pending_despawns
    &&& post.assets == pre.assets
    &&& post.next_asset == pre.next_asset
}

/// What `despawn` does: the handle joins the deferred despawn list and
/// everything else — the live set above all — stays untouched.
pub open spec fn despawn_post(pre: Engine, entity: EntityId, post: Engine) -> bool {
    &&& post.live == pre.live
    &&& post.pending_spawns == pre.pending_spawns
    &&& post.pending_despawns@ == pre.pending_despawns@.push(entity.0)
    &&& post.next_entity == pre.next_entity
    &&& post.assets == pre.assets
    &&& post.next_asset == pre.next_asset
}

/// What `load_asset` does: a known path answers its original handle and
/// changes nothing; a new path is appended under a fresh handle from the
/// asset counter. Entity state is never touched.
pub open spec fn load_asset_post(pre: Engine, path: Seq<u8>, a: AssetId, post: Engine) -> bool {
    if has_asset(pre.assets@, path) {
        &&& post == pre
        &&& forall|i: int| is_first_asset_slot(pre.assets@, path, i) ==> a.0 == pre.assets@[i].asset
    } else {
        &&& a.0 == pre.next_asset
        &&& post.next_asset == pre.next_asset + 1
        &&& post.assets@.len() == pre.assets@.len() + 1
        &&& post.assets@.subrange(0, pre.assets@.len() as int) == pre.assets@
        &&& post.assets@.last().path@ == path
        &&& post.assets@.last().asset == a.0
        &&& post.live == pre.live
        &&& post.pending_spawns == pre.pending_spawns
        &&& post.pending_despawns == pre.pending_despawns
        &&& post.next_entity == pre.next_entity
    }
}

impl Engine {
    /// Handles are unique among live and pending entities, the counters
    /// bound every issued handle, and asset paths are unique.
    pub open spec fn wf(&self) -> bool {
        &&& forall|i: int, j: int|
            0 <= i < self.live@.len() && 0 <= j < self.live@.len() && i != j ==> (
            #[trigger] self.live@[i]).entity != (#[trigger] self.live@[j]).entity
        &&& forall|i: int, j: int|
            0 <= i < self.pending_spawns@.len() && 0 <= j < self.pending_spawns@.len() && i != j
                ==> (#[trigger] self.pending_spawns@[i]).entity != (
            #[trigger] self.pending_spawns@[j]).entity
        &&& forall|i: int, j: int|
            0 <= i < self.live@.len() && 0 <= j < self.pending_spawns@.len() ==> (
            #[trigger] self.live@[i]).entity != (#[trigger] self.pending_spawns@[j]).entity
        &&& forall|i: int|
            0 <= i < self.live@.len() ==> (#[trigger] self.live@[i]).entity < self.next_entity
        &&& forall|i: int|
            0 <= i < self.pending_spawns@.len() ==> (#[trigger] self.pending_spawns@[i]).entity
                < self.next_entity
        &&& forall|i: int, j: int|
            0 <= i < self.assets@.len() && 0 <= j < self.assets@.len() && i != j ==> (
            #[trigger] self.assets@[i]).path@ != (#[trigger] self.assets@[j]).path@
        &&& forall|i: int|
            0 <= i < self.assets@.len() ==> (#[trigger] self.assets@[i]).asset < self.next_asset
    }

    /// An empty world: no entities, nothing pending, no assets.
    pub fn new() -> (r: Engine)
        ensures
            r.wf(),
            r.live@.len() == 0,
            r.pending_spawns@.len() == 0,
            r.pending_despawns@.len() == 0,
            r.assets@.len() == 0,
    {
        Engine {
            live: Vec::new(),
            pending_spawns: Vec::new(),
            pending_despawns: Vec::new(),
            next_entity: 0,
            assets: Vec::new(),
            next_asset: 0,
        }
    }

    /// Spawns an entity with the given components, returning its fresh
    /// handle. Deferred: the entity joins the live set only at the end of
    /// the frame, so queries evaluated during this frame do not see it.
    pub fn spawn(&mut self, components: Vec<ComponentRef>) -> (e: EntityId)
        requires
            old(self).wf(),
            old(self).next_entity < u64::MAX,
        ensures
            final(self).wf(),
            spawn_post(*old(self), components, e, *final(self)),
            !has_live(old(self).live@, e.0),
    {
        let entity = self.next_entity;
        self.next_entity = self.next_entity + 1;
        self.pending_spawns.push(EntityRecord { entity, components });
        // the handle is fresh: every live handle is below the old counter
        proof {
            assert(!has_live(self.live@, entity)) by {
                if has_live(self.live@, entity) {
                    let i = choose|i: int|
                        0 <= i < self.live@.len() && (#[trigger] self.live@[i]).entity == entity;
                    assert(self.live@[i].entity < entity);
                }
            }
        }
        EntityId(entity)
    }

    /// Marks an entity for removal. Deferred: the entity leaves the live set
    /// only at the end of the frame, so queries evaluated during this frame
    /// still see it.
    pub fn despawn(&mut self, entity: EntityId)
        requires
            old(self).wf(),
        ensures
            final(self).wf(),
            despawn_post(*old(self), entity, *final(self)),
    {
        self.pending_despawns.push(entity.0);
    }

    /// Loads an asset by path, answering its handle. Idempotent: a path
    /// already loaded answers the handle of the original load, and the
    /// handle is usable immediately.
    pub fn load_asset(&mut self, path: &Vec<u8>) -> (a: AssetId)
        requires
            old(self).wf(),
            old(self).next_asset < u32::MAX,
        ensures
            final(self).wf(),
            load_asset_post(*old(self), path@, a, *final(self)),
    {
        let mut i: usize = 0;
        while i < self.assets.len()
            invariant
                *self == *old(self),
                old(self).wf(),
                i <= self.assets@.len(),
                forall|k: int| 0 <= k < i ==> (#[trigger] self.assets@[k]).path@ != path@,
            decreases self.assets@.len() - i,
        {
            if name_eq(&self.assets[i].path, path) {
                return AssetId(self.assets[i].asset);
            }
            i += 1;
        }
        let handle = self.next_asset;
        self.next_asset = self.next_asset + 1;
        let ghost pre_assets = self.assets@;
        self.assets.push(AssetRecord { path: clone_name(path), asset: handle });
        proof {
            assert(self.assets@.subrange(0, pre_assets.len() as int) =~= pre_assets);
        }
        AssetId(handle)
    }

    /// Applies the frame's deferred work: pending spawns join the live set,
    /// then every entity whose handle was despawned this frame leaves it;
    /// both deferred lists empty out. Asset state is untouched.
    pub fn end_frame(&mut self)
        requires
            old(self).wf(),
        ensures
            final(self).wf(),
            final(self).live@ == retained(
                old(self).live@ + old(self).pending_spawns@,
                old(self).pending_despawns@,
            ),
            final(self).pending_spawns@.len() == 0,
            final(self).pending_despawns@.len() == 0,
            final(self).next_entity == old(self).next_entity,
            final(self).assets@ == old(self).assets@,
            final(self).next_asset == old(self).next_asset,
    {
        let ghost combined = old(self).live@ + old(self).pending_spawns@;
        let ghost despawns = old(self).pending_despawns@;
        let mut survivors: Vec<EntityRecord> = Vec::new();
        while self.live.len() > 0
            invariant
                despawns == self.pending_despawns@,
                survivors@ + retained(self.live@ + self.pending_spawns@, despawns) == retained(
                    combined,
                    despawns,
                ),
                forall|i: int|
                    0 <= i < survivors@.len() ==> !despawns.contains(
                        (#[trigger] survivors@[i]).entity,
                    ),
                forall|i: int| 0 <= i < survivors@.len() ==> combined.contains(survivors@[i]),
                self.pending_spawns@ == old(self).pending_spawns@,
                self.assets@ == old(self).assets@,
                self.next_entity == old(self).next_entity,
                self.next_asset == old(self).next_asset,
            decreases self.live@.len(),
        {
            let ghost before = self.live@ + self.pending_spawns@;
            let rec = self.live.remove(0);
            proof {
                assert((self.live@ + self.pending_spawns@) =~= before.skip(1));
                assert(before[0] == rec);
            }
            let is_despawned = contains_handle(&self.pending_despawns, rec.entity);
            if is_despawned {
                proof {
                    assert(retained(before, despawns) == retained(before.skip(1), despawns));
                }
            } else {
                proof {
                    assert(retained(before, despawns) == seq![rec] + retained(
                        before.skip(1),
                        despawns,
                    ));
                }
                let ghost pre_survivors = survivors@;
                survivors.push(rec);
                proof {
                    assert(survivors@ =~= pre_survivors + seq![rec]);
                    assert(survivors@ + retained(self.live@ + self.pending_spawns@, despawns)
                        =~= (pre_survivors + seq![rec]) + retained(before.skip(1), despawns));
                    assert((pre_survivors + seq![rec]) + retained(before.skip(1), despawns)
                        =~= pre_survivors + (seq![rec] + retained(before.skip(1), despawns)));
                    assert(combined.contains(rec)) by {
                        lemma_retained_membership(combined, despawns);
                        assert(retained(combined, despawns).contains(rec)) by {
                            let n = pre_survivors.len() as int;
                            assert(retained(combined, despawns)[n] == rec);
                        }
                    }
                }
            }
        }
        while self.pending_spawns.len() > 0
            invariant
                despawns == self.pending_despawns@,
                self.live@.len() == 0,
                survivors@ + retained(self.live@ + self.pending_spawns@, despawns) == retained(
                    combined,
                    despawns,
                ),
                forall|i: int|
                    0 <= i < survivors@.len() ==> !despawns.contains(
                        (#[trigger] survivors@[i]).entity,
                    ),
                forall|i: int| 0 <= i < survivors@.len() ==> combined.contains(survivors@[i]),
                self.assets@ == old(self).assets@,
                self.next_entity == old(self).next_entity,
                self.next_asset == old(self).next_asset,
            decreases self.pending_spawns@.len(),
        {
            let ghost before = self.live@ + self.pending_spawns@;
            let rec = self.pending_spawns.remove(0);
            proof {
                assert((self.live@ + self.pending_spawns@) =~= before.skip(1));
                assert(before[0] == rec);
            }
            let is_despawned = contains_handle(&self.pending_despawns, rec.entity);
            if is_despawned {
                proof {
                    assert(retained(before, despawns) == retained(before.skip(1), despawns));
                }
            } else {
                proof {
                    assert(retained(before, despawns) == seq![rec] + retained(
                        before.skip(1),
                        despawns,
                    ));
                }
                let ghost pre_survivors = survivors@;
                survivors.push(rec);
                proof {
                    assert(survivors@ =~= pre_survivors + seq![rec]);
                    assert(survivors@ + retained(self.live@ + self.pending_spawns@, despawns)
                        =~= (pre_survivors + seq![rec]) + retained(before.skip(1), despawns));
                    assert((pre_survivors + seq![rec]) + retained(before.skip(1), despawns)
                        =~= pre_survivors + (seq![rec] + retained(before.skip(1), despawns)));
                    assert(combined.contains(rec)) by {
                        lemma_retained_membership(combined, despawns);
                        assert(retained(combined, despawns).contains(rec)) by {
                            let n = pre_survivors.len() as int;
                            assert(retained(combined, despawns)[n] == rec);
                        }
                    }
                }
            }
        }
        proof {
            assert((self.live@ + self.pending_spawns@).len() == 0);
            assert(retained(self.live@ + self.pending_spawns@, despawns)
                =~= Seq::<EntityRecord>::empty());
            assert(survivors@ =~= survivors@ + retained(self.live@ + self.pending_spawns@,
                despawns));
        }
        self.live = survivors;
        self.pending_despawns = Vec::new();
        proof {
            lemma_combined_unique_handles(*old(self));
            lemma_retained_membership(combined, despawns);
            let new_live = self.live@;
            assert forall|i: int, j: int|
                0 <= i < new_live.len() && 0 <= j < new_live.len() && i != j implies (
            #[trigger] new_live[i]).entity != (#[trigger] new_live[j]).entity by {
                lemma_retained_distinct_handles(combined, despawns, i, j);
            }
            assert forall|i: int| 0 <= i < new_live.len() implies (
            #[trigger] new_live[i]).entity < self.next_entity by {
                assert(retained(combined, despawns).contains(new_live[i])) by {
                    assert(retained(combined, despawns)[i] == new_live[i]);
                }
                assert(combined.contains(new_live[i]));
                let a = choose|a: int| 0 <= a < combined.len() && combined[a] == new_live[i];
                assert(combined[a].entity < old(self).next_entity);
            }
        }
    }
}

/// Handles in the combined live-and-pending sequence are pairwise distinct
/// and bounded by the entity counter.
proof fn lemma_combined_unique_handles(e: Engine)
    requires
        e.wf(),
    ensures
        forall|a: int, b: int|
            0 <= a < (e.live@ + e.pending_spawns@).len() && 0 <= b < (e.live@
                + e.pending_spawns@).len() && a != b ==> ((e.live@ + e.pending_spawns@)[a]).entity
                != ((e.live@ + e.pending_spawns@)[b]).entity,
        forall|a: int|
            0 <= a < (e.live@ + e.pending_spawns@).len() ==> ((e.live@
                + e.pending_spawns@)[a]).entity < e.next_entity,
{
    let combined = e.live@ + e.pending_spawns@;
    assert forall|a: int, b: int|
        0 <= a < combined.len() && 0 <= b < combined.len() && a != b implies (
    combined[a]).entity != (combined[b]).entity by {
        let n = e.live@.len() as int;
        if a < n && b < n {
            assert(combined[a] == e.live@[a]);
            assert(combined[b] == e.live@[b]);
        } else if a < n {
            assert(combined[a] == e.live@[a]);
            assert(combined[b] == e.pending_spawns@[b - n]);
        } else if b < n {
            assert(combined[a] == e.pending_spawns@[a - n]);
            assert(combined[b] == e.live@[b]);
        } else {
            assert(combined[a] == e.pending_spawns@[a - n]);
            assert(combined[b] == e.pending_spawns@[b - n]);
        }
    }
    assert forall|a: int| 0 <= a < combined.len() implies (combined[a]).entity
        < e.next_entity by {
        let n = e.live@.len() as int;
        if a < n {
            assert(combined[a] == e.live@[a]);
        } else {
            assert(combined[a] == e.pending_spawns@[a - n]);
        }
    }
}

/// A sequence with pairwise-distinct handles keeps them pairwise distinct
/// across a frame boundary.
proof fn lemma_retained_distinct_handles(
    records: Seq<EntityRecord>,
    despawns: Seq<u64>,
    i: int,
    j: int,
)
    requires
        forall|a: int, b: int|
            0 <= a < records.len() && 0 <= b < records.len() && a != b ==> (
            #[trigger] records[a]).entity != (#[trigger] records[b]).entity,
        0 <= i < retained(records, despawns).len(),
        0 <= j < retained(records, despawns).len(),
        i != j,
    ensures
        retained(records, despawns)[i].entity != retained(records, despawns)[j].entity,
    decreases records.len(),
{
    let all = retained(records, despawns);
    let rest = retained(records.skip(1), despawns);
    if despawns.contains(records[0].entity) {
        lemma_retained_distinct_handles(records.skip(1), despawns, i, j);
    } else {
        lemma_retained_membership(records.skip(1), despawns);
        if i == 0 || j == 0 {
            let other = if i == 0 {
                j
            } else {
                i
            };
            assert(all[0] == records[0]);
            assert(all[other] == rest[other - 1]);
            assert(rest.contains(rest[other - 1]));
            assert(records.skip(1).contains(rest[other - 1]));
            let k = choose|k: int|
                0 <= k < records.skip(1).len() && records.skip(1)[k] == rest[other - 1];
            assert(records[k + 1] == rest[other - 1]);
            assert(records[k + 1].entity != records[0].entity);
        } else {
            assert(all[i] == rest[i - 1]);
            assert(all[j] == rest[j - 1]);
            lemma_retained_distinct_handles(records.skip(1), despawns, i - 1, j - 1);
        }
    }
}

/// Some slot holds the path, so a first such slot exists.
proof fn lemma_first_asset_slot_exists(assets: Seq<AssetRecord>, path: Seq<u8>, k: int)
    requires
        0 <= k < assets.len(),
        assets[k].path@ == path,
    ensures
        exists|i: int| is_first_asset_slot(assets, path, i),
    decreases k,
{
    if forall|j: int| 0 <= j < k ==> (#[trigger] assets[j]).path@ != path {
        assert(is_first_asset_slot(assets, path, k));
    } else {
        let j = choose|j: int| 0 <= j < k && (#[trigger] assets[j]).path@ == path;
        lemma_first_asset_slot_exists(assets, path, j);
    }
}

/// Loading the same path twice answers the same handle both times, and the
/// second load leaves the engine exactly as the first left it.
pub proof fn lemma_load_asset_idempotent(
    e0: Engine,
    e1: Engine,
    e2: Engine,
    path: Seq<u8>,
    a1: AssetId,
    a2: AssetId,
)
    requires
        e0.wf(),
        load_asset_post(e0, path, a1, e1),
        load_asset_post(e1, path, a2, e2),
    ensures
        a2 == a1,
        e2 == e1,
{
    if has_asset(e0.assets@, path) {
        let k = choose|k: int| 0 <= k < e0.assets@.len() && (#[trigger] e0.assets@[k]).path@
            == path;
        lemma_first_asset_slot_exists(e0.assets@, path, k);
        let i = choose|i: int| is_first_asset_slot(e0.assets@, path, i);
        assert(a1.0 == e0.assets@[i].asset);
        assert(e1 == e0);
        assert(a2.0 == e0.assets@[i].asset);
    } else {
        let n = e1.assets@.len() - 1;
        assert(e1.assets@[n] == e1.assets@.last());
        assert(forall|j: int|
            0 <= j < n ==> #[trigger] e1.assets@.subrange(0, n)[j] == e0.assets@[j]);
        assert forall|j: int| 0 <= j < n implies (#[trigger] e1.assets@[j]).path@ != path by {
            assert(e1.assets@.subrange(0, n)[j] == e1.assets@[j]);
        }
        assert(is_first_asset_slot(e1.assets@, path, n));
        assert(has_asset(e1.assets@, path));
        assert(a2.0 == e1.assets@[n].asset);
        assert(a2.0 == a1.0);
    }
}

/// Whether the handle list contains the given handle.
pub fn contains_handle(handles: &Vec<u64>, handle: u64) -> (r: bool)
    ensures
        r == handles@.contains(handle),
{
    let mut i: usize = 0;
    while i < handles.len()
        invariant
            i <= handles@.len(),
            forall|k: int| 0 <= k < i ==> handles@[k] != handle,
        decreases handles@.len() - i,
    {
        if handles[i] == handle {
            proof {
                assert(handles@[i as int] == handle);
            }
            return true;
        }
        i += 1;
    }
    proof {
        if handles@.contains(handle) {
            let k = choose|k: int| 0 <= k < handles@.len() && handles@[k] == handle;
        }
    }
    false
}

} // verus!
