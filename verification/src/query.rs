//! The query abstraction: a read/write view over the entities whose
//! component set is a superset of a declared template.
//!
//! A query handle is ephemeral — built for one callback invocation over the
//! engine state passed alongside it. Point lookups address one entity;
//! first-match lookups serve queries expected to cover at most one entity;
//! iteration asks for the matching entities in live order, one routine
//! invocation per entity, with every routine outcome carried back through
//! the fault boundary.

use vstd::prelude::*;
use crate::components::EntityId;
use crate::descriptor::ComponentId;
use crate::engine::ComponentRef;
use crate::engine::Engine;
use crate::engine::EntityRecord;
use crate::engine::despawn_post;
use crate::engine::lemma_retained_membership;
use crate::engine::retained;
use crate::engine::spawn_post;
use crate::engine::is_first_component_slot;
use crate::engine::is_first_live_slot;
use crate::engine::record_has;
use crate::names::clone_name;

verus! {

/// The record carries every component of the template.
pub open spec fn matches_template(rec: EntityRecord, template: Seq<ComponentId>) -> bool {
    forall|j: int| 0 <= j < template.len() ==> record_has(rec, #[trigger] template[j])
}

/// `i` is the first live slot whose record matches the template.
pub open spec fn is_first_matching_slot(
    live: Seq<EntityRecord>,
    template: Seq<ComponentId>,
    i: int,
) -> bool {
    &&& 0 <= i < live.len()
    &&& matches_template(live[i], template)
    &&& forall|k: int| 0 <= k < i ==> !matches_template(#[trigger] live[k], template)
}

/// Some live record matches the template.
pub open spec fn some_match(live: Seq<EntityRecord>, template: Seq<ComponentId>) -> bool {
    exists|i: int| 0 <= i < live.len() && matches_template(#[trigger] live[i], template)
}

/// The entity is in the query's result set: live, with a record matching
/// the template.
pub open spec fn in_result_set(
    live: Seq<EntityRecord>,
    template: Seq<ComponentId>,
    entity: u64,
) -> bool {
    exists|i: int|
        0 <= i < live.len() && (#[trigger] live[i]).entity == entity && matches_template(
            live[i],
            template,
        )
}

/// The handles of the matching records, in live order.
pub open spec fn matching_ids(live: Seq<EntityRecord>, template: Seq<ComponentId>) -> Seq<u64>
    decreases live.len(),
{
    if live.len() == 0 {
        Seq::empty()
    } else {
        let rest = matching_ids(live.skip(1), template);
        if matches_template(live[0], template) {
            seq![live[0].entity] + rest
        } else {
            rest
        }
    }
}

/// A handle is iterated exactly when its record matches the template.
pub proof fn lemma_matching_ids_membership(live: Seq<EntityRecord>, template: Seq<ComponentId>)
    ensures
        forall|entity: u64|
            #[trigger] matching_ids(live, template).contains(entity) <==> in_result_set(
                live,
                template,
                entity,
            ),
    decreases live.len(),
{
    if live.len() > 0 {
        lemma_matching_ids_membership(live.skip(1), template);
        let all = matching_ids(live, template);
        let rest = matching_ids(live.skip(1), template);
        assert forall|entity: u64| #[trigger] all.contains(entity) implies in_result_set(
            live,
            template,
            entity,
        ) by {
            let i = choose|i: int| 0 <= i < all.len() && all[i] == entity;
            if matches_template(live[0], template) && i == 0 {
                assert(live[0].entity == entity && matches_template(live[0], template));
            } else {
                assert(rest.contains(entity)) by {
                    if matches_template(live[0], template) {
                        assert(rest[i - 1] == entity);
                    } else {
                        assert(rest[i] == entity);
                    }
                }
                let k = choose|k: int|
                    0 <= k < live.skip(1).len() && (#[trigger] live.skip(1)[k]).entity == entity
                        && matches_template(live.skip(1)[k], template);
                assert(live[k + 1].entity == entity && matches_template(live[k + 1], template));
            }
        }
        assert forall|entity: u64| in_result_set(live, template, entity) implies #[trigger] all
            .contains(entity) by {
            let i = choose|i: int|
                0 <= i < live.len() && (#[trigger] live[i]).entity == entity && matches_template(
                    live[i],
                    template,
                );
            if i == 0 {
                assert(all[0] == entity);
            } else {
                assert(live.skip(1)[i - 1].entity == entity);
                assert(matches_template(live.skip(1)[i - 1], template));
                assert(in_result_set(live.skip(1), template, entity));
                assert(rest.contains(entity));
                let k = choose|k: int| 0 <= k < rest.len() && rest[k] == entity;
                if matches_template(live[0], template) {
                    assert(all[k + 1] == entity);
                } else {
                    assert(all[k] == entity);
                }
            }
        }
    }
}

/// First slot of the record holding the given component type.
pub fn find_component(rec: &EntityRecord, component: ComponentId) -> (r: Option<usize>)
    ensures
        r is Some <==> record_has(*rec, component),
        r matches Some(j) ==> is_first_component_slot(*rec, component, j as int),
{
    let mut j: usize = 0;
    while j < rec.components.len()
        invariant
            j <= rec.components@.len(),
            forall|k: int|
                0 <= k < j ==> (#[trigger] rec.components@[k]).component_id != component,
        decreases rec.components@.len() - j,
    {
        if rec.components[j].component_id == component {
            return Some(j);
        }
        j += 1;
    }
    None
}

/// Whether the record carries every component of the template.
pub fn record_matches(rec: &EntityRecord, template: &Vec<ComponentId>) -> (r: bool)
    ensures
        r == matches_template(*rec, template@),
{
    let mut j: usize = 0;
    while j < template.len()
        invariant
            j <= template@.len(),
            forall|k: int| 0 <= k < j ==> record_has(*rec, #[trigger] template@[k]),
        decreases template@.len() - j,
    {
        match find_component(rec, template[j]) {
            Some(_) => {},
            None => {
                return false;
            },
        }
        j += 1;
    }
    true
}

/// A query over a declared template of component types.
pub struct Query {
    pub template: Vec<ComponentId>,
}

impl Query {
    pub fn new(template: Vec<ComponentId>) -> (r: Query)
        ensures
            r.template == template,
    {
        Query { template }
    }

    /// Live slot of the entity, provided its record matches the template.
    fn entity_result_index(&self, engine: &Engine, entity: EntityId) -> (r: Option<usize>)
        requires
            engine.wf(),
        ensures
            r is Some <==> in_result_set(engine.live@, self.template@, entity.0),
            r matches Some(i) ==> is_first_live_slot(engine.live@, entity.0, i as int)
                && matches_template(engine.live@[i as int], self.template@),
    {
        let mut i: usize = 0;
        while i < engine.live.len()
            invariant
                engine.wf(),
                i <= engine.live@.len(),
                forall|k: int| 0 <= k < i ==> (#[trigger] engine.live@[k]).entity != entity.0,
            decreases engine.live@.len() - i,
        {
            if engine.live[i].entity == entity.0 {
                if record_matches(&engine.live[i], &self.template) {
                    return Some(i);
                } else {
                    proof {
                        if in_result_set(engine.live@, self.template@, entity.0) {
                            let k = choose|k: int|
                                0 <= k < engine.live@.len() && (#[trigger] engine.live@[k]).entity
                                    == entity.0 && matches_template(
                                    engine.live@[k],
                                    self.template@,
                                );
                            if k != i {
                                assert(engine.live@[k].entity != engine.live@[i as int].entity);
                            }
                        }
                    }
                    return None;
                }
            }
            i += 1;
        }
        None
    }

    /// First live slot matching the template.
    fn first_result_index(&self, engine: &Engine) -> (r: Option<usize>)
        ensures
            r is Some <==> some_match(engine.live@, self.template@),
            r matches Some(i) ==> is_first_matching_slot(engine.live@, self.template@, i as int),
    {
        let mut i: usize = 0;
        while i < engine.live.len()
            invariant
                i <= engine.live@.len(),
                forall|k: int|
                    0 <= k < i ==> !matches_template(#[trigger] engine.live@[k], self.template@),
            decreases engine.live@.len() - i,
        {
            if record_matches(&engine.live[i], &self.template) {
                return Some(i);
            }
            i += 1;
        }
        None
    }

    /// Point lookup: the component value of one entity in this query's
    /// result set; `None` when the entity is outside it. The requested type
    /// must be one of the template's components.
    pub fn get(&self, engine: &Engine, entity: EntityId, component: ComponentId) -> (r: Option<
        Vec<u8>,
    >)
        requires
            engine.wf(),
            self.template@.contains(component),
        ensures
            r is Some <==> in_result_set(engine.live@, self.template@, entity.0),
            r matches Some(data) ==> forall|i: int, j: int|
                is_first_live_slot(engine.live@, entity.0, i) && is_first_component_slot(
                    engine.live@[i],
                    component,
                    j,
                ) ==> data@ == engine.live@[i].components@[j].data@,
    {
        match self.entity_result_index(engine, entity) {
            Some(i) => {
                proof {
                    let t = choose|t: int|
                        0 <= t < self.template@.len() && self.template@[t] == component;
                    assert(record_has(engine.live@[i as int], component));
                }
                match find_component(&engine.live[i], component) {
                    Some(j) => {
                        let data = clone_name(&engine.live[i].components[j].data);
                        proof {
                            lemma_first_live_slot_unique(engine.live@, entity.0);
                            lemma_first_component_slot_unique(engine.live@[i as int], component);
                        }
                        Some(data)
                    },
                    None => None,
                }
            },
            None => None,
        }
    }

    /// Mutable point lookup: replaces the component value of one entity in
    /// this query's result set, reporting whether the entity was inside it.
    pub fn get_mut(
        &self,
        engine: &mut Engine,
        entity: EntityId,
        component: ComponentId,
        data: Vec<u8>,
    ) -> (updated: bool)
        requires
            old(engine).wf(),
            self.template@.contains(component),
        ensures
            final(engine).wf(),
            updated <==> in_result_set(old(engine).live@, self.template@, entity.0),
            !updated ==> *final(engine) == *old(engine),
            updated ==> write_post(*old(engine), entity.0, component, data, *final(engine)),
    {
        match self.entity_result_index(engine, entity) {
            Some(i) => {
                proof {
                    let t = choose|t: int|
                        0 <= t < self.template@.len() && self.template@[t] == component;
                    assert(record_has(engine.live@[i as int], component));
                }
                write_component_at(engine, i, component, data);
                true
            },
            None => false,
        }
    }

    /// First-match lookup: the component value of the first entity this
    /// query covers, for queries expected to cover at most one entity.
    pub fn get_first(&self, engine: &Engine, component: ComponentId) -> (r: Option<Vec<u8>>)
        requires
            engine.wf(),
            self.template@.contains(component),
        ensures
            r is Some <==> some_match(engine.live@, self.template@),
            r matches Some(data) ==> forall|i: int, j: int|
                is_first_matching_slot(engine.live@, self.template@, i) && is_first_component_slot(
                    engine.live@[i],
                    component,
                    j,
                ) ==> data@ == engine.live@[i].components@[j].data@,
    {
        match self.first_result_index(engine) {
            Some(i) => {
                proof {
                    let t = choose|t: int|
                        0 <= t < self.template@.len() && self.template@[t] == component;
                    assert(record_has(engine.live@[i as int], component));
                }
                match find_component(&engine.live[i], component) {
                    Some(j) => {
                        let data = clone_name(&engine.live[i].components[j].data);
                        proof {
                            lemma_first_matching_slot_unique(engine.live@, self.template@);
                            lemma_first_component_slot_unique(engine.live@[i as int], component);
                        }
                        Some(data)
                    },
                    None => None,
                }
            },
            None => None,
        }
    }

    /// Mutable first-match lookup: replaces the component value of the
    /// first entity this query covers.
    pub fn get_first_mut(&self, engine: &mut Engine, component: ComponentId, data: Vec<u8>) -> (
        updated: bool)
        requires
            old(engine).wf(),
            self.template@.contains(component),
        ensures
            final(engine).wf(),
            updated <==> some_match(old(engine).live@, self.template@),
            !updated ==> *final(engine) == *old(engine),
            updated ==> forall|i: int|
                is_first_matching_slot(old(engine).live@, self.template@, i) ==> write_post(
                    *old(engine),
                    old(engine).live@[i].entity,
                    component,
                    data,
                    *final(engine),
                ),
    {
        match self.first_result_index(engine) {
            Some(i) => {
                proof {
                    let t = choose|t: int|
                        0 <= t < self.template@.len() && self.template@[t] == component;
                    assert(record_has(engine.live@[i as int], component));
                    lemma_first_matching_slot_unique(engine.live@, self.template@);
                    assert(is_first_live_slot(engine.live@, engine.live@[i as int].entity, i as int))
                        by {
                        assert(engine.wf());
                    }
                }
                write_component_at(engine, i, component, data);
                true
            },
            None => false,
        }
    }

    /// The entities this query iterates, in live order. Sequential
    /// iteration invokes the caller's routine once per handle on the
    /// calling thread, in this order; parallel iteration may fan the same
    /// handles out across a host-managed thread pool with no ordering
    /// guarantee between invocations.
    pub fn matching_entities(&self, engine: &Engine) -> (r: Vec<u64>)
        ensures
            r@ == matching_ids(engine.live@, self.template@),
    {
        let mut r: Vec<u64> = Vec::new();
        let mut i: usize = 0;
        proof {
            assert(engine.live@.skip(0) =~= engine.live@);
            assert(r@ + matching_ids(engine.live@, self.template@) =~= matching_ids(
                engine.live@,
                self.template@,
            ));
        }
        while i < engine.live.len()
            invariant
                i <= engine.live@.len(),
                matching_ids(engine.live@, self.template@) == r@ + matching_ids(
                    engine.live@.skip(i as int),
                    self.template@,
                ),
            decreases engine.live@.len() - i,
        {
            let ghost tail = engine.live@.skip(i as int);
            proof {
                assert(tail[0] == engine.live@[i as int]);
                assert(tail.skip(1) =~= engine.live@.skip(i + 1));
            }
            if record_matches(&engine.live[i], &self.template) {
                let ghost pre = r@;
                r.push(engine.live[i].entity);
                proof {
                    assert(r@ =~= pre + seq![engine.live@[i as int].entity]);
                    assert(pre + matching_ids(tail, self.template@) =~= (pre + seq![
                        engine.live@[i as int].entity,
                    ]) + matching_ids(engine.live@.skip(i + 1), self.template@));
                }
            }
            i += 1;
        }
        proof {
            assert(engine.live@.skip(engine.live@.len() as int)
                =~= Seq::<EntityRecord>::empty());
            assert(r@ =~= r@ + matching_ids(
                engine.live@.skip(engine.live@.len() as int),
                self.template@,
            ));
        }
        r
    }
}

/// What a write through a query does: the addressed entity's first slot of
/// the addressed component holds the new value, and every other slot of
/// every record — and all non-entity state — is untouched.
pub open spec fn write_post(
    pre: Engine,
    entity: u64,
    component: ComponentId,
    data: Vec<u8>,
    post: Engine,
) -> bool {
    &&& post.live@.len() == pre.live@.len()
    &&& forall|i: int, j: int|
        is_first_live_slot(pre.live@, entity, i) && is_first_component_slot(
            pre.live@[i],
            component,
            j,
        ) ==> {
            &&& forall|k: int| 0 <= k < pre.live@.len() && k != i ==> post.live@[k] == pre.live@[k]
            &&& post.live@[i].entity == pre.live@[i].entity
            &&& post.live@[i].components@ == pre.live@[i].components@.update(
                j,
                ComponentRef { component_id: component, data },
            )
        }
    &&& post.pending_spawns == pre.pending_spawns
    &&& post.pending_despawns == pre.pending_despawns
    &&& post.next_entity == pre.next_entity
    &&& post.assets == pre.assets
    &&& post.next_asset == pre.next_asset
}

/// Two first live slots for one handle coincide.
proof fn lemma_first_live_slot_unique(live: Seq<EntityRecord>, entity: u64)
    ensures
        forall|i: int, j: int|
            is_first_live_slot(live, entity, i) && is_first_live_slot(live, entity, j) ==> i == j,
{
}

/// Two first component slots for one type coincide.
proof fn lemma_first_component_slot_unique(rec: EntityRecord, component: ComponentId)
    ensures
        forall|i: int, j: int|
            is_first_component_slot(rec, component, i) && is_first_component_slot(rec, component, j)
                ==> i == j,
{
}

/// Two first matching slots for one template coincide.
proof fn lemma_first_matching_slot_unique(live: Seq<EntityRecord>, template: Seq<ComponentId>)
    ensures
        forall|i: int, j: int|
            is_first_matching_slot(live, template, i) && is_first_matching_slot(live, template, j)
                ==> i == j,
{
}

/// Replaces the first slot of `component` in the record at live slot `i`.
fn write_component_at(engine: &mut Engine, i: usize, component: ComponentId, data: Vec<u8>)
    requires
        old(engine).wf(),
        i < old(engine).live@.len(),
        record_has(old(engine).live@[i as int], component),
        is_first_live_slot(old(engine).live@, old(engine).live@[i as int].entity, i as int),
    ensures
        final(engine).wf(),
        write_post(
            *old(engine),
            old(engine).live@[i as int].entity,
            component,
            data,
            *final(engine),
        ),
{
    let mut rec = EntityRecord { entity: 0, components: Vec::new() };
    engine.live.set_and_swap(i, &mut rec);
    let j = find_component(&rec, component).unwrap();
    rec.components.set(j, ComponentRef { component_id: component, data });
    let ghost mid_rec = rec;
    engine.live.set_and_swap(i, &mut rec);
    proof {
        let pre = *old(engine);
        let entity = pre.live@[i as int].entity;
        assert(engine.live@ =~= pre.live@.update(i as int, mid_rec));
        lemma_first_live_slot_unique(pre.live@, entity);
        lemma_first_component_slot_unique(pre.live@[i as int], component);
        assert forall|a: int, b: int|
            is_first_live_slot(pre.live@, entity, a) && is_first_component_slot(
                pre.live@[a],
                component,
                b,
            ) implies {
            &&& forall|k: int|
                0 <= k < pre.live@.len() && k != a ==> engine.live@[k] == pre.live@[k]
            &&& engine.live@[a].entity == pre.live@[a].entity
            &&& engine.live@[a].components@ == pre.live@[a].components@.update(
                b,
                ComponentRef { component_id: component, data },
            )
        } by {
            assert(a == i as int);
            assert(b == j as int);
        }
        assert forall|a: int, b: int|
            0 <= a < engine.live@.len() && 0 <= b < engine.live@.len() && a != b implies (
        #[trigger] engine.live@[a]).entity != (#[trigger] engine.live@[b]).entity by {
            assert(engine.live@[a].entity == pre.live@[a].entity);
            assert(engine.live@[b].entity == pre.live@[b].entity);
        }
    }
}

/// A spawn issued mid-frame is deferred: a query evaluated later the same
/// frame sees exactly the entities it saw before the spawn, and the spawned
/// entity is not among them.
pub proof fn lemma_spawn_deferred(
    pre: Engine,
    components: Vec<ComponentRef>,
    e: EntityId,
    post: Engine,
    template: Seq<ComponentId>,
)
    requires
        pre.wf(),
        spawn_post(pre, components, e, post),
    ensures
        matching_ids(post.live@, template) == matching_ids(pre.live@, template),
        !in_result_set(post.live@, template, e.0),
        !matching_ids(post.live@, template).contains(e.0),
{
    assert(post.live@ == pre.live@);
    if in_result_set(post.live@, template, e.0) {
        let i = choose|i: int|
            0 <= i < post.live@.len() && (#[trigger] post.live@[i]).entity == e.0
                && matches_template(post.live@[i], template);
        assert(pre.live@[i].entity < pre.next_entity);
    }
    lemma_matching_ids_membership(post.live@, template);
}

/// A despawn issued mid-frame is deferred: a query evaluated later the same
/// frame sees exactly the entities it saw before the despawn — the entity
/// marked for removal among them.
pub proof fn lemma_despawn_deferred(
    pre: Engine,
    entity: EntityId,
    post: Engine,
    template: Seq<ComponentId>,
)
    requires
        despawn_post(pre, entity, post),
    ensures
        matching_ids(post.live@, template) == matching_ids(pre.live@, template),
        in_result_set(pre.live@, template, entity.0) == in_result_set(
            post.live@,
            template,
            entity.0,
        ),
{
    assert(post.live@ == pre.live@);
}

/// At the frame's end the deferred work takes effect: an entity is in a
/// query's result set afterwards exactly when some record for it — live or
/// spawned this frame — matches the template and the entity was not
/// despawned this frame.
pub proof fn lemma_end_frame_applies_deferred(
    pre: Engine,
    post: Engine,
    template: Seq<ComponentId>,
    entity: u64,
)
    requires
        post.live@ == retained(pre.live@ + pre.pending_spawns@, pre.pending_despawns@),
    ensures
        in_result_set(post.live@, template, entity) <==> (in_result_set(
            pre.live@ + pre.pending_spawns@,
            template,
            entity,
        ) && !pre.pending_despawns@.contains(entity)),
{
    let combined = pre.live@ + pre.pending_spawns@;
    let despawns = pre.pending_despawns@;
    lemma_retained_membership(combined, despawns);
    if in_result_set(post.live@, template, entity) {
        let i = choose|i: int|
            0 <= i < post.live@.len() && (#[trigger] post.live@[i]).entity == entity
                && matches_template(post.live@[i], template);
        let rec = post.live@[i];
        assert(post.live@.contains(rec));
        assert(combined.contains(rec) && !despawns.contains(rec.entity));
        let k = choose|k: int| 0 <= k < combined.len() && combined[k] == rec;
        assert(combined[k].entity == entity && matches_template(combined[k], template));
    }
    if in_result_set(combined, template, entity) && !despawns.contains(entity) {
        let k = choose|k: int|
            0 <= k < combined.len() && (#[trigger] combined[k]).entity == entity
                && matches_template(combined[k], template);
        let rec = combined[k];
        assert(combined.contains(rec));
        assert(post.live@.contains(rec));
        let i = choose|i: int| 0 <= i < post.live@.len() && post.live@[i] == rec;
        assert(post.live@[i].entity == entity && matches_template(post.live@[i], template));
    }
}

} // verus!
