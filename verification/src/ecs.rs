//! A small entity/component/resource store for the standalone simulation
//! shell.
//!
//! Rather than a type-keyed registry, the store is explicit and strongly
//! typed: the resource set is fixed and known at compile time, and
//! component storage is generic over the one component type a world
//! carries, so every operation has an exact contract.

use vstd::prelude::*;

verus! {

/// A handle to one entity.
#[derive(Clone, Copy, PartialEq, Eq, Hash, Debug, Structural)]
pub struct Entity(pub u32);

/// Keyed storage of one component type: each entity holds at most one
/// component.
pub struct ComponentStorage<T> {
    pub components: Vec<(Entity, T)>,
}

impl<T> ComponentStorage<T> {
    /// Entities are listed at most once.
    pub open spec fn wf(self) -> bool {
        forall|i: int, j: int|
            0 <= i < j < self.components@.len() ==> (#[trigger] self.components@[i]).0 != (
            #[trigger] self.components@[j]).0
    }

    /// The entity has a component here.
    pub open spec fn contains_entity(self, entity: Entity) -> bool {
        exists|i: int| 0 <= i < self.components@.len() && (#[trigger] self.components@[i]).0
            == entity
    }

    /// The component stored for the entity (meaningful when present).
    pub open spec fn value_of(self, entity: Entity) -> T {
        self.components@[choose|i: int|
            0 <= i < self.components@.len() && (#[trigger] self.components@[i]).0 == entity].1
    }

    /// An empty storage.
    pub fn new() -> (r: Self)
        ensures
            r.wf(),
            r.components@.len() == 0,
            forall|e: Entity| !r.contains_entity(e),
    {
        ComponentStorage { components: Vec::new() }
    }

    /// Index of the entity's entry, if any.
    fn index_of(&self, entity: Entity) -> (r: Option<usize>)
        ensures
            match r {
                Some(i) => i < self.components@.len() && self.components@[i as int].0 == entity,
                None => !self.contains_entity(entity),
            },
    {
        let n = self.components.len();
        let mut i: usize = 0;
        while i < n
            invariant
                i <= n,
                n == self.components@.len(),
                forall|j: int| 0 <= j < i ==> (#[trigger] self.components@[j]).0 != entity,
            decreases n - i,
        {
            if self.components[i].0.0 == entity.0 {
                return Some(i);
            }
            i = i + 1;
        }
        None
    }

    /// Store `component` for `entity`, replacing any previous component.
    pub fn insert(&mut self, entity: Entity, component: T)
        requires
            old(self).wf(),
        ensures
            final(self).wf(),
            final(self).contains_entity(entity),
            final(self).value_of(entity) == component,
            forall|e: Entity|
                e != entity ==> #[trigger] final(self).contains_entity(e) == old(self).contains_entity(e),
            forall|e: Entity|
                e != entity && #[trigger] old(self).contains_entity(e) ==> final(self).value_of(e)
                    == old(self).value_of(e),
    {
        let idx = self.index_of(entity);
        match idx {
            Some(i) => {
                self.components[i] = (entity, component);
                proof {
                    lemma_storage_lookup(*self, entity, i as int);
                    assert forall|e: Entity|
                        e != entity && #[trigger] old(self).contains_entity(e) implies (
                        *self).contains_entity(e) && (*self).value_of(e) == old(self).value_of(
                        e) by {
                        let w = choose|w: int|
                            0 <= w < old(self).components@.len() && (
                            #[trigger] old(self).components@[w]).0 == e;
                        assert(self.components@[w].0 == e);
                        lemma_storage_lookup(*self, e, w);
                        lemma_storage_lookup(*old(self), e, w);
                    }
                    assert forall|e: Entity|
                        e != entity && #[trigger] (*self).contains_entity(e) implies old(self).contains_entity(e) by {
                        let w = choose|w: int|
                            0 <= w < self.components@.len() && (#[trigger] self.components@[w]).0
                                == e;
                        assert(old(self).components@[w].0 == e);
                    }
                }
            },
            None => {
                self.components.push((entity, component));
                proof {
                    let n = old(self).components@.len() as int;
                    assert(self.components@[n].0 == entity);
                    lemma_storage_lookup(*self, entity, n);
                    assert forall|e: Entity|
                        e != entity && #[trigger] old(self).contains_entity(e) implies (
                        *self).contains_entity(e) && (*self).value_of(e) == old(self).value_of(
                        e) by {
                        let w = choose|w: int|
                            0 <= w < old(self).components@.len() && (
                            #[trigger] old(self).components@[w]).0 == e;
                        assert(self.components@[w].0 == e);
                        lemma_storage_lookup(*self, e, w);
                        lemma_storage_lookup(*old(self), e, w);
                    }
                    assert forall|e: Entity|
                        e != entity && #[trigger] (*self).contains_entity(e) implies old(self).contains_entity(e) by {
                        let w = choose|w: int|
                            0 <= w < self.components@.len() && (#[trigger] self.components@[w]).0
                                == e;
                        assert(w < n);
                        assert(old(self).components@[w].0 == e);
                    }
                }
            },
        }
    }

    /// Read the entity's component, if any.
    pub fn get(&self, entity: Entity) -> (r: Option<&T>)
        requires
            self.wf(),
        ensures
            match r {
                Some(v) => self.contains_entity(entity) && *v == self.value_of(entity),
                None => !self.contains_entity(entity),
            },
    {
        let idx = self.index_of(entity);
        match idx {
            Some(i) => {
                proof {
                    lemma_storage_lookup(*self, entity, i as int);
                }
                Some(&self.components[i].1)
            },
            None => None,
        }
    }

    /// Remove and return the entity's component, if any.
    pub fn remove(&mut self, entity: Entity) -> (r: Option<T>)
        requires
            old(self).wf(),
        ensures
            final(self).wf(),
            !final(self).contains_entity(entity),
            match r {
                Some(v) => old(self).contains_entity(entity) && v == old(self).value_of(entity),
                None => !old(self).contains_entity(entity) && *final(self) == *old(self),
            },
            forall|e: Entity|
                e != entity ==> #[trigger] final(self).contains_entity(e) == old(self).contains_entity(e),
            forall|e: Entity|
                e != entity && #[trigger] old(self).contains_entity(e) ==> final(self).value_of(e)
                    == old(self).value_of(e),
    {
        let idx = self.index_of(entity);
        match idx {
            Some(i) => {
                let pair = self.components.remove(i);
                proof {
                    old(self).components@.remove_ensures(i as int);
                    lemma_storage_lookup(*old(self), entity, i as int);
                    assert forall|e: Entity| #[trigger]
                        (*self).contains_entity(e) implies old(self).contains_entity(e) && e
                        != entity by {
                        let w = choose|w: int|
                            0 <= w < self.components@.len() && (#[trigger] self.components@[w]).0
                                == e;
                        if w < i {
                            assert(old(self).components@[w].0 == e);
                        } else {
                            assert(old(self).components@[w + 1].0 == e);
                        }
                    }
                    assert forall|e: Entity|
                        e != entity && #[trigger] old(self).contains_entity(e) implies (
                        *self).contains_entity(e) && (*self).value_of(e) == old(self).value_of(
                        e) by {
                        let w = choose|w: int|
                            0 <= w < old(self).components@.len() && (
                            #[trigger] old(self).components@[w]).0 == e;
                        assert(w != i);
                        if w < i {
                            assert(self.components@[w].0 == e);
                            lemma_storage_lookup(*self, e, w);
                        } else {
                            assert(self.components@[w - 1].0 == e);
                            lemma_storage_lookup(*self, e, w - 1);
                        }
                        lemma_storage_lookup(*old(self), e, w);
                    }
                }
                Some(pair.1)
            },
            None => None,
        }
    }

    /// All stored pairs, in storage order.
    pub fn iter(&self) -> (r: &Vec<(Entity, T)>)
        ensures
            r@ == self.components@,
    {
        &self.components
    }

    /// Mutable access to all stored pairs.  Later operations that need
    /// well-formed storage require that the caller kept entities unique.
    pub fn iter_mut(&mut self) -> (r: &mut Vec<(Entity, T)>)
        ensures
            *r == old(self).components,
            final(self).components == *final(r),
    {
        &mut self.components
    }
}

impl<T> ComponentStorage<T> {
    /// Mutable access to the entity's component, if any.
    pub fn get_mut(&mut self, entity: Entity) -> (r: Option<&mut T>)
        requires
            old(self).wf(),
        ensures
            match r {
                Some(p) => {
                    &&& old(self).contains_entity(entity)
                    &&& *p == old(self).value_of(entity)
                    &&& final(self).wf()
                    &&& final(self).contains_entity(entity)
                    &&& final(self).value_of(entity) == *final(p)
                    &&& forall|e: Entity|
                        e != entity ==> #[trigger] final(self).contains_entity(e) == old(self).contains_entity(e)
                    &&& forall|e: Entity|
                        e != entity && #[trigger] old(self).contains_entity(e) ==> final(self).value_of(e) == old(self).value_of(e)
                },
                None => !old(self).contains_entity(entity) && *final(self) == *old(self),
            },
    {
        let idx = self.index_of(entity);
        match idx {
            Some(i) => {
                proof {
                    lemma_storage_lookup(*self, entity, i as int);
                }
                let p = &mut self.components[i].1;
                proof {
                    let fin = after_borrow(*self);
                    assert(fin.components@ == old(self).components@.update(
                        i as int,
                        (entity, *final(p)),
                    ));
                    lemma_storage_lookup(fin, entity, i as int);
                    assert forall|e: Entity|
                        e != entity && #[trigger] old(self).contains_entity(e) implies
                        fin.contains_entity(e) && fin.value_of(e) == old(self).value_of(e) by {
                        let w = choose|w: int|
                            0 <= w < old(self).components@.len() && (
                            #[trigger] old(self).components@[w]).0 == e;
                        assert(w != i);
                        assert(fin.components@[w].0 == e);
                        lemma_storage_lookup(fin, e, w);
                        lemma_storage_lookup(*old(self), e, w);
                    }
                    assert forall|e: Entity|
                        e != entity && #[trigger] fin.contains_entity(e) implies old(self).contains_entity(e) by {
                        let w = choose|w: int|
                            0 <= w < fin.components@.len() && (#[trigger] fin.components@[w]).0
                                == e;
                        assert(old(self).components@[w].0 == e);
                    }
                }
                Some(p)
            },
            None => None,
        }
    }
}

/// If entry `i` holds `entity` and entities are unique, the storage's
/// lookup resolves to exactly that entry.
proof fn lemma_storage_lookup<T>(s: ComponentStorage<T>, entity: Entity, i: int)
    requires
        s.wf(),
        0 <= i < s.components@.len(),
        s.components@[i].0 == entity,
    ensures
        s.contains_entity(entity),
        s.value_of(entity) == s.components@[i].1,
{
    let w = choose|w: int|
        0 <= w < s.components@.len() && (#[trigger] s.components@[w]).0 == entity;
    assert(w == i);
}


/// Aggregate, non-spatial statistics mirrored out for display.
#[derive(Clone, Copy, PartialEq, Eq, Debug, Structural, Default)]
pub struct CityStats {
    /// Number of entities the world has created so far.
    pub entity_count: u32,
}

/// The dimensions of the city's tile grid.
#[derive(Clone, Copy, PartialEq, Eq, Debug, Structural)]
pub struct CityGrid {
    pub width: u32,
    pub height: u32,
}

/// In-game time for the standalone shell, in milliseconds, with a speed
/// multiplier and a pause switch.
#[derive(Clone, Copy, PartialEq, Eq, Debug, Structural)]
pub struct GameTime {
    /// Total elapsed in-game milliseconds.
    pub time_ms: u64,
    /// In-game milliseconds per real millisecond.
    pub speed: u32,
    /// Length of an in-game day in milliseconds; always positive.
    pub day_length_ms: u64,
    pub is_paused: bool,
}

impl GameTime {
    /// The day length is positive, so day arithmetic is defined.
    pub open spec fn wf(self) -> bool {
        self.day_length_ms > 0
    }

    /// Start the clock at zero, running at real-time speed.
    pub fn new(day_length_ms: u64) -> (r: Self)
        requires
            day_length_ms > 0,
        ensures
            r.wf(),
            r.time_ms == 0,
            r.speed == 1,
            r.day_length_ms == day_length_ms,
            !r.is_paused,
    {
        GameTime { time_ms: 0, speed: 1, day_length_ms, is_paused: false }
    }

    /// Flip between paused and running.
    pub fn toggle_pause(&mut self)
        ensures
            *final(self) == (GameTime { is_paused: !old(self).is_paused, ..*old(self) }),
    {
        self.is_paused = !self.is_paused;
    }

    /// Set the speed multiplier.
    pub fn set_speed(&mut self, speed: u32)
        ensures
            *final(self) == (GameTime { speed, ..*old(self) }),
    {
        self.speed = speed;
    }

    /// Completed days since the clock started, counted from zero.
    pub fn current_day(&self) -> (r: u32)
        requires
            self.wf(),
            self.time_ms / self.day_length_ms <= u32::MAX,
        ensures
            r == self.time_ms as int / self.day_length_ms as int,
    {
        (self.time_ms / self.day_length_ms) as u32
    }

    /// How far the current day has progressed, in thousandths.
    pub fn time_of_day(&self) -> (r: u32)
        requires
            self.wf(),
        ensures
            r == (self.time_ms as int % self.day_length_ms as int) * 1000 / (
            self.day_length_ms as int),
            r < 1000,
    {
        let within: u64 = self.time_ms % self.day_length_ms;
        proof {
            let w = within as int;
            let d = self.day_length_ms as int;
            vstd::arithmetic::div_mod::lemma_div_pos_is_pos(w * 1000, d);
            assert(w * 1000 <= (d - 1) * 1000) by (nonlinear_arith)
                requires
                    0 <= w <= d - 1,
            ;
            vstd::arithmetic::div_mod::lemma_div_is_ordered(w * 1000, (d - 1) * 1000, d);
            assert(((d - 1) * 1000) / d < 1000) by {
                vstd::arithmetic::div_mod::lemma_multiply_divide_lt((d - 1) * 1000, d, 1000);
            }
        }
        ((within as u128 * 1000) / self.day_length_ms as u128) as u32
    }
}

/// A global (singleton) value the world can hold, one slot per kind.
#[derive(Clone, Copy, PartialEq, Eq, Debug, Structural)]
pub enum Resource {
    GameTime(GameTime),
    CityStats(CityStats),
    CityGrid(CityGrid),
}

/// Which resource slot an operation addresses.
#[derive(Clone, Copy, PartialEq, Eq, Debug, Structural)]
pub enum ResourceKind {
    GameTime,
    CityStats,
    CityGrid,
}

impl Resource {
    /// The slot this value belongs in.
    pub open spec fn kind(self) -> ResourceKind {
        match self {
            Resource::GameTime(_) => ResourceKind::GameTime,
            Resource::CityStats(_) => ResourceKind::CityStats,
            Resource::CityGrid(_) => ResourceKind::CityGrid,
        }
    }
}

/// The world: an entity counter, storage for one component type, and one
/// slot for each kind of resource.  The resource set is fixed at compile
/// time, so no runtime type lookup is needed.
pub struct World<C> {
    pub next_entity_id: u32,
    pub components: ComponentStorage<C>,
    pub game_time: Option<Resource>,
    pub city_stats: Option<Resource>,
    pub city_grid: Option<Resource>,
}

impl<C> World<C> {
    /// Each slot holds a value of its own kind, and component storage is
    /// well formed.
    pub open spec fn wf(self) -> bool {
        &&& self.components.wf()
        &&& match self.game_time {
            Some(r) => r.kind() == ResourceKind::GameTime,
            None => true,
        }
        &&& match self.city_stats {
            Some(r) => r.kind() == ResourceKind::CityStats,
            None => true,
        }
        &&& match self.city_grid {
            Some(r) => r.kind() == ResourceKind::CityGrid,
            None => true,
        }
    }

    /// The slot addressed by `kind`.
    pub open spec fn slot(self, kind: ResourceKind) -> Option<Resource> {
        match kind {
            ResourceKind::GameTime => self.game_time,
            ResourceKind::CityStats => self.city_stats,
            ResourceKind::CityGrid => self.city_grid,
        }
    }

    /// An empty world with no entities, components or resources.
    pub fn new() -> (r: Self)
        ensures
            r.wf(),
            r.next_entity_id == 0,
            r.components.components@.len() == 0,
            r.game_time is None && r.city_stats is None && r.city_grid is None,
    {
        World {
            next_entity_id: 0,
            components: ComponentStorage::new(),
            game_time: None,
            city_stats: None,
            city_grid: None,
        }
    }

    /// Mint a fresh entity handle.
    pub fn create_entity(&mut self) -> (r: Entity)
        requires
            old(self).next_entity_id < u32::MAX,
        ensures
            r == Entity(old(self).next_entity_id),
            *final(self) == (World { next_entity_id: (old(self).next_entity_id + 1) as u32, ..*old(self) }),
    {
        let entity = Entity(self.next_entity_id);
        self.next_entity_id = self.next_entity_id + 1;
        entity
    }

    /// Attach a component to an entity, replacing any previous one.
    pub fn add_component(&mut self, entity: Entity, component: C)
        requires
            old(self).wf(),
        ensures
            final(self).wf(),
            final(self).components.contains_entity(entity),
            final(self).components.value_of(entity) == component,
            forall|e: Entity|
                e != entity ==> #[trigger] final(self).components.contains_entity(e) == old(self).components.contains_entity(e),
            forall|e: Entity|
                e != entity && #[trigger] old(self).components.contains_entity(e) ==> final(self).components.value_of(e) == old(self).components.value_of(e),
            final(self).next_entity_id == old(self).next_entity_id,
            final(self).game_time == old(self).game_time,
            final(self).city_stats == old(self).city_stats,
            final(self).city_grid == old(self).city_grid,
    {
        self.components.insert(entity, component);
    }

    /// Detach and return an entity component, if any.
    pub fn remove_component(&mut self, entity: Entity) -> (r: Option<C>)
        requires
            old(self).wf(),
        ensures
            final(self).wf(),
            !final(self).components.contains_entity(entity),
            match r {
                Some(v) => old(self).components.contains_entity(entity) && v == old(self).components.value_of(entity),
                None => !old(self).components.contains_entity(entity) && *final(self) == *old(self),
            },
            forall|e: Entity|
                e != entity ==> #[trigger] final(self).components.contains_entity(e) == old(self).components.contains_entity(e),
    {
        self.components.remove(entity)
    }

    /// Read an entity component, if any.
    pub fn get_component(&self, entity: Entity) -> (r: Option<&C>)
        requires
            self.wf(),
        ensures
            match r {
                Some(v) => self.components.contains_entity(entity) && *v
                    == self.components.value_of(entity),
                None => !self.components.contains_entity(entity),
            },
    {
        self.components.get(entity)
    }

    /// Mutable access to an entity component, if any.
    pub fn get_component_mut(&mut self, entity: Entity) -> (r: Option<&mut C>)
        requires
            old(self).wf(),
        ensures
            match r {
                Some(p) => {
                    &&& old(self).components.contains_entity(entity)
                    &&& *p == old(self).components.value_of(entity)
                    &&& final(self).wf()
                    &&& final(self).components.contains_entity(entity)
                    &&& final(self).components.value_of(entity) == *final(p)
                    &&& forall|e: Entity|
                        e != entity ==> #[trigger] final(self).components.contains_entity(e)
                            == old(self).components.contains_entity(e)
                    &&& final(self).game_time == old(self).game_time
                    &&& final(self).city_stats == old(self).city_stats
                    &&& final(self).city_grid == old(self).city_grid
                    &&& final(self).next_entity_id == old(self).next_entity_id
                },
                None => !old(self).components.contains_entity(entity) && *final(self) == *old(self),
            },
    {
        self.components.get_mut(entity)
    }

    /// All component pairs, in storage order.
    pub fn query(&self) -> (r: &Vec<(Entity, C)>)
        ensures
            r@ == self.components.components@,
    {
        self.components.iter()
    }

    /// Mutable access to all component pairs.  Later operations that need
    /// well-formed storage require that the caller kept entities unique.
    pub fn query_mut(&mut self) -> (r: &mut Vec<(Entity, C)>)
        ensures
            *r == old(self).components.components,
            final(self).components.components == *final(r),
            final(self).game_time == old(self).game_time,
            final(self).city_stats == old(self).city_stats,
            final(self).city_grid == old(self).city_grid,
            final(self).next_entity_id == old(self).next_entity_id,
    {
        self.components.iter_mut()
    }

    /// Store a resource in the slot of its kind, replacing any previous
    /// value of that kind.
    pub fn insert_resource(&mut self, resource: Resource)
        requires
            old(self).wf(),
        ensures
            final(self).wf(),
            final(self).slot(resource.kind()) == Some(resource),
            forall|k: ResourceKind|
                k != resource.kind() ==> #[trigger] final(self).slot(k) == old(self).slot(k),
            final(self).components == old(self).components,
            final(self).next_entity_id == old(self).next_entity_id,
    {
        match resource {
            Resource::GameTime(_) => {
                self.game_time = Some(resource);
            },
            Resource::CityStats(_) => {
                self.city_stats = Some(resource);
            },
            Resource::CityGrid(_) => {
                self.city_grid = Some(resource);
            },
        }
    }

    /// Read the resource of the given kind, if present.
    pub fn get_resource(&self, kind: ResourceKind) -> (r: Option<&Resource>)
        ensures
            match r {
                Some(v) => self.slot(kind) == Some(*v),
                None => self.slot(kind) is None,
            },
    {
        match kind {
            ResourceKind::GameTime => self.game_time.as_ref(),
            ResourceKind::CityStats => self.city_stats.as_ref(),
            ResourceKind::CityGrid => self.city_grid.as_ref(),
        }
    }

    /// Mutable access to the resource of the given kind, if present.
    pub fn get_resource_mut(&mut self, kind: ResourceKind) -> (r: Option<&mut Resource>)
        ensures
            match r {
                Some(p) => {
                    &&& old(self).slot(kind) == Some(*p)
                    &&& final(self).slot(kind) == Some(*final(p))
                    &&& forall|k: ResourceKind|
                        k != kind ==> #[trigger] final(self).slot(k) == old(self).slot(k)
                    &&& final(self).components == old(self).components
                    &&& final(self).next_entity_id == old(self).next_entity_id
                },
                None => old(self).slot(kind) is None && *final(self) == *old(self),
            },
    {
        match kind {
            ResourceKind::GameTime => self.game_time.as_mut(),
            ResourceKind::CityStats => self.city_stats.as_mut(),
            ResourceKind::CityGrid => self.city_grid.as_mut(),
        }
    }

    /// Take the resource of the given kind out of the world, if present.
    pub fn remove_resource(&mut self, kind: ResourceKind) -> (r: Option<Resource>)
        requires
            old(self).wf(),
        ensures
            final(self).wf(),
            final(self).slot(kind) is None,
            match r {
                Some(v) => old(self).slot(kind) == Some(v),
                None => old(self).slot(kind) is None && *final(self) == *old(self),
            },
            forall|k: ResourceKind| k != kind ==> #[trigger] final(self).slot(k) == old(self).slot(k),
            final(self).components == old(self).components,
            final(self).next_entity_id == old(self).next_entity_id,
    {
        match kind {
            ResourceKind::GameTime => self.game_time.take(),
            ResourceKind::CityStats => self.city_stats.take(),
            ResourceKind::CityGrid => self.city_grid.take(),
        }
    }
}

/// Advance the world clock by `delta_ms` real milliseconds, scaled by the
/// current speed, unless the clock is paused or absent.  The additions
/// saturate rather than wrap.
pub fn clock_system<C>(world: &mut World<C>, delta_ms: u64)
    ensures
        match old(world).game_time {
            Some(Resource::GameTime(t)) => if t.is_paused {
                *final(world) == *old(world)
            } else {
                final(world).game_time == Some(
                    Resource::GameTime(
                        GameTime {
                            time_ms: vstd::math::min(
                                t.time_ms as int + vstd::math::min(
                                    t.speed as int * delta_ms as int,
                                    u64::MAX as int,
                                ),
                                u64::MAX as int,
                            ) as u64,
                            ..t
                        },
                    ),
                ) && final(world).city_stats == old(world).city_stats && final(world).city_grid
                    == old(world).city_grid && final(world).components == old(world).components
                    && final(world).next_entity_id == old(world).next_entity_id
            },
            _ => *final(world) == *old(world),
        },
{
    match &mut world.game_time {
        Some(Resource::GameTime(t)) => {
            if !t.is_paused {
                proof {
                    assert((t.speed as int) * (delta_ms as int) <= (u32::MAX as int) * (
                    u64::MAX as int)) by (nonlinear_arith)
                        requires
                            0 <= t.speed as int <= u32::MAX as int,
                            0 <= delta_ms as int <= u64::MAX as int,
                    ;
                }
                let wide: u128 = t.speed as u128 * delta_ms as u128;
                let scaled: u64 = if wide > u64::MAX as u128 {
                    u64::MAX
                } else {
                    wide as u64
                };
                t.time_ms = t.time_ms.saturating_add(scaled);
            }
        },
        _ => {},
    }
}

/// Refresh the published city statistics from the world's entity count.
pub fn city_stats_system<C>(world: &mut World<C>)
    requires
        old(world).wf(),
    ensures
        final(world).wf(),
        final(world).city_stats == Some(
            Resource::CityStats(CityStats { entity_count: old(world).next_entity_id }),
        ),
        final(world).game_time == old(world).game_time,
        final(world).city_grid == old(world).city_grid,
        final(world).components == old(world).components,
        final(world).next_entity_id == old(world).next_entity_id,
{
    let stats = CityStats { entity_count: world.next_entity_id };
    world.insert_resource(Resource::CityStats(stats));
    proof {
        assert(world.slot(ResourceKind::GameTime) == old(world).slot(ResourceKind::GameTime));
        assert(world.slot(ResourceKind::CityGrid) == old(world).slot(ResourceKind::CityGrid));
    }
}

} // verus!
