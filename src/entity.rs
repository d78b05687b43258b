use vstd::prelude::*;
use std::collections::VecDeque;
use crate::components::{ComponentsData, RenderComponent, TOTAL_ENTITIES};

verus! {

/// Handle to an entity: a slot index and the generation that the slot had
/// when the handle was handed out.
#[derive(Clone, Copy, Debug, PartialEq, Eq, Structural)]
pub struct EntityId {
    pub index: usize,
    pub generation: u64,
}

/// One slot of the table: its current generation and whether an entity
/// lives in it.
#[derive(Clone, Copy, Debug, PartialEq, Eq, Structural)]
pub struct Slot {
    pub generation: u64,
    pub alive: bool,
}

#[derive(Clone, Copy, Debug, PartialEq, Eq, Structural)]
pub enum EntityError {
    /// The handle's generation no longer matches a live entity in its slot.
    StaleHandle,
}

/// Generational allocator of entity ids, with component storage indexed by
/// slot. Slots are never removed, so a handle never points at an unrelated
/// slot; a recycled slot carries a new generation.
pub struct EntityManager {
    deleted_entities: VecDeque<usize>,
    entities: Vec<Slot>,
    components: ComponentsData,
}

/// What a destroy does to the slot of a live entity: the generation moves on,
/// except at the top of its range, where the slot is retired for good.
pub open spec fn destroyed_slot(s: Slot) -> Slot {
    Slot {
        generation: if s.generation < u64::MAX { (s.generation + 1) as u64 } else { s.generation },
        alive: false,
    }
}

impl EntityManager {
    /// Generation and liveness of each slot, by index.
    pub closed spec fn slots(&self) -> Seq<Slot> {
        self.entities@
    }

    /// Indices waiting for reuse, oldest first.
    pub closed spec fn free_list(&self) -> Seq<usize> {
        self.deleted_entities@
    }

    /// Render component of each slot, by index.
    pub closed spec fn render_slots(&self) -> Seq<Option<RenderComponent>> {
        self.components@
    }

    pub open spec fn alive(&self, id: EntityId) -> bool {
        &&& id.index < self.slots().len()
        &&& self.slots()[id.index as int].alive
        &&& self.slots()[id.index as int].generation == id.generation
    }

    /// The free list holds distinct indices of dead slots, and the component
    /// array has one entry per slot.
    pub open spec fn wf(&self) -> bool {
        &&& self.render_slots().len() == self.slots().len()
        &&& forall|k: int|
            0 <= k < self.free_list().len() ==> {
                &&& (#[trigger] self.free_list()[k] as int) < self.slots().len()
                &&& !self.slots()[self.free_list()[k] as int].alive
            }
        &&& forall|k: int, l: int|
            0 <= k < l < self.free_list().len() ==> #[trigger] self.free_list()[k]
                != #[trigger] self.free_list()[l]
    }

    /// The state after `create_entity` on `old` returned `r`.
    pub open spec fn created(old: EntityManager, new: EntityManager, r: EntityId) -> bool {
        if old.free_list().len() > 0 {
            let i = old.free_list()[0];
            &&& r.index == i
            &&& r.generation == old.slots()[i as int].generation
            &&& new.slots() == old.slots().update(i as int, Slot { generation: r.generation, alive: true })
            &&& new.free_list() == old.free_list().drop_first()
            &&& new.render_slots() == old.render_slots()
        } else {
            &&& r.index == old.slots().len()
            &&& r.generation == 1
            &&& new.slots() == old.slots().push(Slot { generation: 1, alive: true })
            &&& new.free_list() == old.free_list()
            &&& new.render_slots() == old.render_slots().push(None)
        }
    }

    /// The state after `destroy_entity(id)` on `old` returned `r`.
    pub open spec fn destroyed(
        old: EntityManager,
        new: EntityManager,
        id: EntityId,
        r: Result<(), EntityError>,
    ) -> bool {
        if old.alive(id) {
            let s = destroyed_slot(old.slots()[id.index as int]);
            &&& r == Ok::<(), EntityError>(())
            &&& new.slots() == old.slots().update(id.index as int, s)
            &&& new.free_list() == if s.generation != id.generation {
                old.free_list().push(id.index)
            } else {
                old.free_list()
            }
            &&& new.render_slots() == old.render_slots().update(id.index as int, None)
        } else {
            &&& r == Err::<(), EntityError>(EntityError::StaleHandle)
            &&& new == old
        }
    }

    pub fn new() -> (r: EntityManager)
        ensures
            r.wf(),
            r.slots() == Seq::<Slot>::empty(),
            r.free_list() == Seq::<usize>::empty(),
    {
        EntityManager {
            deleted_entities: VecDeque::new(),
            entities: Vec::with_capacity(TOTAL_ENTITIES),
            components: ComponentsData::new(),
        }
    }

    /// Hands out a live id: the oldest freed slot under its current
    /// generation, or else a new slot with generation 1.
    pub fn create_entity(&mut self) -> (r: EntityId)
        requires
            old(self).wf(),
        ensures
            final(self).wf(),
            final(self).alive(r),
            Self::created(*old(self), *final(self), r),
    {
        match self.deleted_entities.pop_front() {
            Some(i) => {
                proof {
                    assert((old(self).free_list()[0] as int) < old(self).slots().len());
                }
                let generation = self.entities[i].generation;
                self.entities.set(i, Slot { generation, alive: true });
                let r = EntityId { index: i, generation };
                proof {
                    let f = self.free_list();
                    let o = old(self).free_list();
                    assert forall|k: int, l: int| 0 <= k < l < f.len() implies f[k] != f[l] by {
                        assert(f[k] == o[k + 1] && f[l] == o[l + 1]);
                    }
                    assert forall|k: int| 0 <= k < f.len() implies (#[trigger] f[k] as int) < self.slots().len()
                        && !self.slots()[f[k] as int].alive by {
                        assert(f[k] == o[k + 1]);
                        assert(o[0] != o[k + 1]);
                    }
                }
                r
            },
            None => {
                let r = EntityId { index: self.entities.len(), generation: 1 };
                self.entities.push(Slot { generation: 1, alive: true });
                self.components.push_empty();
                r
            },
        }
    }

    /// Ends the entity that `id` names: its slot is poisoned for `id` and
    /// queued for reuse. A handle that names no live entity is refused and
    /// the table is left as it was.
    pub fn destroy_entity(&mut self, id: EntityId) -> (r: Result<(), EntityError>)
        requires
            old(self).wf(),
        ensures
            final(self).wf(),
            Self::destroyed(*old(self), *final(self), id, r),
    {
        if !self.is_alive(id) {
            return Err(EntityError::StaleHandle);
        }
        let slot = self.entities[id.index];
        if slot.generation < u64::MAX {
            self.entities.set(id.index, Slot { generation: slot.generation + 1, alive: false });
            self.deleted_entities.push_back(id.index);
        } else {
            self.entities.set(id.index, Slot { generation: slot.generation, alive: false });
        }
        self.components.set_render(id.index, None);
        proof {
            let f = self.free_list();
            let o = old(self).free_list();
            assert forall|k: int| 0 <= k < f.len() implies (#[trigger] f[k] as int) < self.slots().len()
                && !self.slots()[f[k] as int].alive by {
                if k < o.len() {
                    assert(f[k] == o[k]);
                }
            }
            assert forall|k: int, l: int| 0 <= k < l < f.len() implies f[k] != f[l] by {
                if l < o.len() {
                    assert(f[k] == o[k] && f[l] == o[l]);
                } else {
                    assert(f[k] == o[k]);
                }
            }
        }
        Ok(())
    }

    pub fn is_alive(&self, id: EntityId) -> (r: bool)
        ensures
            r == self.alive(id),
    {
        if id.index < self.entities.len() {
            let slot = self.entities[id.index];
            slot.alive && slot.generation == id.generation
        } else {
            false
        }
    }

    /// The render component of a live entity.
    pub fn render_component(&self, id: EntityId) -> (r: Result<Option<RenderComponent>, EntityError>)
        requires
            self.wf(),
        ensures
            self.alive(id) ==> r == Ok::<Option<RenderComponent>, EntityError>(
                self.render_slots()[id.index as int],
            ),
            !self.alive(id) ==> r == Err::<Option<RenderComponent>, EntityError>(
                EntityError::StaleHandle,
            ),
    {
        if self.is_alive(id) {
            Ok(self.components.render(id.index))
        } else {
            Err(EntityError::StaleHandle)
        }
    }

    /// Gives a live entity a render component, or takes it away.
    pub fn set_render_component(&mut self, id: EntityId, c: Option<RenderComponent>) -> (r: Result<
        (),
        EntityError,
    >)
        requires
            old(self).wf(),
        ensures
            final(self).wf(),
            final(self).slots() == old(self).slots(),
            final(self).free_list() == old(self).free_list(),
            old(self).alive(id) ==> r == Ok::<(), EntityError>(()) && final(self).render_slots()
                == old(self).render_slots().update(id.index as int, c),
            !old(self).alive(id) ==> r == Err::<(), EntityError>(EntityError::StaleHandle)
                && final(self).render_slots() == old(self).render_slots(),
    {
        if self.is_alive(id) {
            self.components.set_render(id.index, c);
            proof {
                assert(self.slots() == old(self).slots());
                assert(self.free_list() == old(self).free_list());
            }
            Ok(())
        } else {
            Err(EntityError::StaleHandle)
        }
    }
}

/// An id is alive right after `create_entity` hands it out, the destroy of
/// that id succeeds, and afterwards the id is no longer alive.
pub proof fn lemma_created_alive_until_destroyed(
    t0: EntityManager,
    t1: EntityManager,
    t2: EntityManager,
    id: EntityId,
    r: Result<(), EntityError>,
)
    requires
        t0.wf(),
        EntityManager::created(t0, t1, id),
        EntityManager::destroyed(t1, t2, id, r),
    ensures
        t1.alive(id),
        r is Ok,
        !t2.alive(id),
{
    assert(t0.free_list().len() > 0 ==> (t0.free_list()[0] as int) < t0.slots().len());
}

/// A destroy through an id whose slot generation has moved past it fails
/// with `StaleHandle` and leaves the table exactly as it was.
pub proof fn lemma_stale_destroy_refused(
    t0: EntityManager,
    t1: EntityManager,
    id: EntityId,
    r: Result<(), EntityError>,
)
    requires
        id.index < t0.slots().len(),
        t0.slots()[id.index as int].generation > id.generation,
        EntityManager::destroyed(t0, t1, id, r),
    ensures
        r == Err::<(), EntityError>(EntityError::StaleHandle),
        t1 == t0,
{
}

/// When the slot that a destroy frees is the next in line for reuse (as it
/// is when no other slot was waiting), the following create hands back that
/// slot under the next generation, alive.
pub proof fn lemma_destroy_then_create_reuses_slot(
    t0: EntityManager,
    t1: EntityManager,
    t2: EntityManager,
    id: EntityId,
    r: Result<(), EntityError>,
    n: EntityId,
)
    requires
        t0.wf(),
        t0.alive(id),
        id.generation < u64::MAX,
        EntityManager::destroyed(t0, t1, id, r),
        t1.free_list()[0] == id.index,
        EntityManager::created(t1, t2, n),
    ensures
        n.index == id.index,
        n.generation == id.generation + 1,
        t2.alive(n),
        t2.slots().len() == t0.slots().len(),
{
}

/// With no slot waiting for reuse, the slot that a destroy frees is the next
/// in line.
pub proof fn lemma_sole_freed_slot_is_next(
    t0: EntityManager,
    t1: EntityManager,
    id: EntityId,
    r: Result<(), EntityError>,
)
    requires
        t0.alive(id),
        t0.free_list().len() == 0,
        id.generation < u64::MAX,
        EntityManager::destroyed(t0, t1, id, r),
    ensures
        t1.free_list().len() == 1,
        t1.free_list()[0] == id.index,
{
    assert(t1.free_list() =~= seq![id.index]);
}

} // verus!
