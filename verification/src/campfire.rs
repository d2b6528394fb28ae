//! Sound cues of lit campfires: which entities were heard last, and when a cue
//! is due again.

use vstd::prelude::*;

verus! {

/// A sound cue that an entity can give rise to.
#[derive(Clone, Copy, Debug, PartialEq, Eq, Structural, Hash)]
pub enum SfxEvent {
    Idle,
    Campfire,
}

/// An entity of the world: its index and the generation of that index.
pub type Entity = (u32, i32);

/// What an entity did last, and when its cue was last played. Times are
/// nanoseconds since the mapper was made.
#[derive(Clone, Copy, Debug, PartialEq, Eq, Structural)]
pub struct PreviousEntityState {
    pub event: SfxEvent,
    pub time: u64,
}

/// How long an entity is remembered after its last cue, in nanoseconds.
pub const TRACKING_TIMEOUT: u64 = 10_000_000_000;

/// The state that an entity has when it is first met at the time `now`.
pub open spec fn first_state(now: u64) -> PreviousEntityState {
    PreviousEntityState { event: SfxEvent::Idle, time: now }
}

/// Whether the record of `entity` outlives a cleanup at `now`: its cue was
/// played less than the timeout ago, or it is the player (by index).
pub open spec fn outlives(
    entity: Entity,
    state: PreviousEntityState,
    now: u64,
    player: Entity,
) -> bool {
    ||| entity.0 == player.0
    ||| state.time >= now
    ||| now - state.time < TRACKING_TIMEOUT
}

/// Whether a cue is due: there is a trigger for it, and either the entity did
/// something else last or the trigger's threshold has passed since.
pub open spec fn cue_due(
    previous: PreviousEntityState,
    trigger: Option<SfxEvent>,
    threshold_passed: bool,
) -> bool {
    match trigger {
        Some(event) => previous.event != event || threshold_passed,
        None => false,
    }
}

/// A `hashbrown::HashMap` from entities to their last states. The verifier
/// does not look inside: what the map holds is known only through
/// `history_entries` and the four functions below it, whose contracts restate
/// what hashbrown documents of `new`, `get`, `insert` and `retain`.
#[verifier::external_body]
pub struct EventHistory {
    map: hashbrown::HashMap<Entity, PreviousEntityState>,
}

/// What an event history holds: the state of each entity it knows.
pub uninterp spec fn history_entries(h: EventHistory) -> Map<Entity, PreviousEntityState>;

/// The history that knows no entity.
pub open spec fn no_entries() -> Map<Entity, PreviousEntityState> {
    Map::empty()
}

/// The state recorded for `entity`, if any.
pub open spec fn recorded(
    entries: Map<Entity, PreviousEntityState>,
    entity: Entity,
) -> Option<PreviousEntityState> {
    if entries.dom().contains(entity) {
        Some(entries[entity])
    } else {
        None
    }
}

/// `hashbrown::HashMap::new`: the map it makes is empty.
#[verifier::external_body]
fn history_new() -> (history: EventHistory)
    ensures
        history_entries(history) == no_entries(),
{
    EventHistory { map: hashbrown::HashMap::new() }
}

/// `hashbrown::HashMap::get`: the value under the key, `None` where the map
/// lacks the key. The map is left as it is.
#[verifier::external_body]
fn history_get(h: &EventHistory, entity: Entity) -> (r: Option<PreviousEntityState>)
    ensures
        r == recorded(history_entries(*h), entity),
{
    h.map.get(&entity).copied()
}

/// `hashbrown::HashMap::insert`: afterwards the key has the new value and every
/// other key what it had; the value that the key had before is handed back.
#[verifier::external_body]
fn history_insert(
    h: &mut EventHistory,
    entity: Entity,
    state: PreviousEntityState,
) -> (r: Option<PreviousEntityState>)
    ensures
        history_entries(*final(h)) == history_entries(*old(h)).insert(entity, state),
        r == recorded(history_entries(*old(h)), entity),
{
    h.map.insert(entity, state)
}

/// `hashbrown::HashMap::retain` with `is_remembered` as the predicate: exactly
/// the pairs for which the predicate holds are left, unchanged.
#[verifier::external_body]
fn history_retain(h: &mut EventHistory, now: u64, player: Entity)
    ensures
        forall|e: Entity|
            history_entries(*final(h)).dom().contains(e) <==> history_entries(
                *old(h),
            ).dom().contains(e) && outlives(e, history_entries(*old(h))[e], now, player),
        forall|e: Entity|
            history_entries(*final(h)).dom().contains(e) ==> history_entries(*final(h))[e]
                == history_entries(*old(h))[e],
{
    h.map.retain(|entity, state| is_remembered(*entity, *state, now, player))
}

/// Whether the record of `entity` is kept by a cleanup at `now`.
pub fn is_remembered(
    entity: Entity,
    state: PreviousEntityState,
    now: u64,
    player: Entity,
) -> (b: bool)
    ensures
        b == outlives(entity, state, now, player),
{
    let age: u64 = if now >= state.time {
        now - state.time
    } else {
        0
    };
    age < TRACKING_TIMEOUT || entity.0 == player.0
}

/// Maps lit campfires to sound cues. It remembers for each campfire what it did
/// last and when its cue last played.
pub struct CampfireEventMapper {
    event_history: EventHistory,
}

impl View for CampfireEventMapper {
    type V = Map<Entity, PreviousEntityState>;

    closed spec fn view(&self) -> Map<Entity, PreviousEntityState> {
        history_entries(self.event_history)
    }
}

impl CampfireEventMapper {
    /// A mapper that has met no entity.
    pub fn new() -> (m: CampfireEventMapper)
        ensures
            m@ == no_entries(),
    {
        CampfireEventMapper { event_history: history_new() }
    }

    /// The state recorded for `entity`, if any.
    pub fn get(&self, entity: Entity) -> (r: Option<PreviousEntityState>)
        ensures
            r == recorded(self@, entity),
    {
        history_get(&self.event_history, entity)
    }

    /// The state of `entity` before this tick. An entity that is met for the
    /// first time gets, and keeps, the state of `first_state(now)`.
    pub fn previous_state(&mut self, entity: Entity, now: u64) -> (previous: PreviousEntityState)
        ensures
            previous == match recorded(old(self)@, entity) {
                Some(state) => state,
                None => first_state(now),
            },
            final(self)@ == old(self)@.insert(entity, previous),
    {
        match history_get(&self.event_history, entity) {
            Some(state) => {
                assert(self@ =~= old(self)@.insert(entity, state));
                state
            },
            None => {
                let state = PreviousEntityState { event: SfxEvent::Idle, time: now };
                history_insert(&mut self.event_history, entity, state);
                state
            },
        }
    }

    /// Whether the cue of `trigger` is to be played for an entity in the state
    /// `previous`. `threshold_passed` says whether the trigger's threshold has
    /// passed since `previous.time`.
    pub fn should_emit(
        previous: &PreviousEntityState,
        trigger: Option<SfxEvent>,
        threshold_passed: bool,
    ) -> (emit: bool)
        ensures
            emit == cue_due(*previous, trigger, threshold_passed),
    {
        match trigger {
            Some(event) => if previous.event == event {
                threshold_passed
            } else {
                true
            },
            None => false,
        }
    }

    /// One lit campfire in one tick, at the time `now`: decides whether its cue
    /// is played, and records that the entity was a campfire. The time of the
    /// record moves to `now` only when the cue is played. `previous` is what
    /// `previous_state` gave for the entity in this tick.
    pub fn maintain(
        &mut self,
        entity: Entity,
        previous: PreviousEntityState,
        now: u64,
        trigger: Option<SfxEvent>,
        threshold_passed: bool,
    ) -> (emit: bool)
        ensures
            emit == cue_due(previous, trigger, threshold_passed),
            final(self)@ == old(self)@.insert(
                entity,
                PreviousEntityState {
                    event: SfxEvent::Campfire,
                    time: if emit {
                        now
                    } else {
                        previous.time
                    },
                },
            ),
    {
        let emit = CampfireEventMapper::should_emit(&previous, trigger, threshold_passed);
        let time: u64 = if emit {
            now
        } else {
            previous.time
        };
        history_insert(
            &mut self.event_history,
            entity,
            PreviousEntityState { event: SfxEvent::Campfire, time },
        );
        emit
    }

    /// Forgets the entities whose cue last played the timeout ago or longer,
    /// but never the player.
    pub fn cleanup(&mut self, player: Entity, now: u64)
        ensures
            forall|e: Entity|
                final(self)@.dom().contains(e) <==> old(self)@.dom().contains(e) && outlives(
                    e,
                    old(self)@[e],
                    now,
                    player,
                ),
            forall|e: Entity| final(self)@.dom().contains(e) ==> final(self)@[e] == old(self)@[e],
    {
        history_retain(&mut self.event_history, now, player);
    }
}

} // verus!
