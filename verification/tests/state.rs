use terrain_mesher::campfire::{
    is_remembered, CampfireEventMapper, PreviousEntityState, SfxEvent, TRACKING_TIMEOUT,
};
use terrain_mesher::idle::Data;
use terrain_mesher::rtsim::{ChunkResource, Profession};

const SECOND: u64 = 1_000_000_000;

#[test]
fn sneaking_ends_off_the_ground_or_in_liquid() {
    let sneaking = Data { is_sneaking: true };
    let standing = Data { is_sneaking: false };
    assert_eq!(sneaking.behavior(true, false), None);
    assert_eq!(sneaking.behavior(false, false), Some(standing));
    assert_eq!(sneaking.behavior(true, true), Some(standing));
    assert_eq!(sneaking.behavior(false, true), Some(standing));
    for on_ground in [false, true] {
        for in_liquid in [false, true] {
            assert_eq!(standing.behavior(on_ground, in_liquid), None);
        }
    }
}

#[test]
fn sneak_and_stand_set_the_state() {
    for data in [Data { is_sneaking: true }, Data { is_sneaking: false }] {
        assert_eq!(data.sneak(), Data { is_sneaking: true });
        assert_eq!(data.stand(), Data { is_sneaking: false });
    }
}

#[test]
fn profession_names() {
    assert_eq!(Profession::Farmer.to_name(), "Farmer");
    assert_eq!(Profession::Hunter.to_name(), "Hunter");
    assert_eq!(Profession::Merchant.to_name(), "Merchant");
    assert_eq!(Profession::Guard.to_name(), "Guard");
    assert_eq!(Profession::Adventurer(0).to_name(), "Adventurer");
    assert_eq!(Profession::Adventurer(7).to_name(), "Adventurer");
    assert_eq!(Profession::Blacksmith.to_name(), "Blacksmith");
    assert_ne!(ChunkResource::Grass, ChunkResource::Flax);
    assert_ne!(ChunkResource::Flax, ChunkResource::Cotton);
}

#[test]
fn cue_is_due_on_a_new_event_or_after_the_threshold() {
    let idle = PreviousEntityState { event: SfxEvent::Idle, time: 5 };
    let burning = PreviousEntityState { event: SfxEvent::Campfire, time: 5 };
    for passed in [false, true] {
        assert!(!CampfireEventMapper::should_emit(&idle, None, passed));
        assert!(!CampfireEventMapper::should_emit(&burning, None, passed));
        assert!(CampfireEventMapper::should_emit(&idle, Some(SfxEvent::Campfire), passed));
    }
    assert!(!CampfireEventMapper::should_emit(&burning, Some(SfxEvent::Campfire), false));
    assert!(CampfireEventMapper::should_emit(&burning, Some(SfxEvent::Campfire), true));
}

#[test]
fn mapper_starts_empty_and_remembers_what_it_met() {
    let mut mapper = CampfireEventMapper::new();
    assert_eq!(mapper.get((1, 1)), None);
    let first = mapper.previous_state((1, 1), 40);
    assert_eq!(first, PreviousEntityState { event: SfxEvent::Idle, time: 40 });
    assert_eq!(mapper.get((1, 1)), Some(first));
    // The same index in another generation is another entity.
    assert_eq!(mapper.get((1, 2)), None);
    // Met again later, the entity still has its first state.
    assert_eq!(mapper.previous_state((1, 1), 90), first);
    assert_eq!(mapper.get((1, 1)), Some(first));
}

#[test]
fn maintain_records_the_campfire_and_moves_the_time_only_on_a_cue() {
    let mut mapper = CampfireEventMapper::new();
    let e = (3, 1);
    let previous = mapper.previous_state(e, 100);
    // First meeting: the entity was idle, so the cue plays.
    assert!(mapper.maintain(e, previous, 100, Some(SfxEvent::Campfire), false));
    assert_eq!(mapper.get(e), Some(PreviousEntityState { event: SfxEvent::Campfire, time: 100 }));
    // Next tick, threshold not passed: no cue, the time stays.
    let previous = mapper.previous_state(e, 200);
    assert_eq!(previous.time, 100);
    assert!(!mapper.maintain(e, previous, 200, Some(SfxEvent::Campfire), false));
    assert_eq!(mapper.get(e), Some(PreviousEntityState { event: SfxEvent::Campfire, time: 100 }));
    // Threshold passed: the cue plays and the time moves.
    let previous = mapper.previous_state(e, 300);
    assert!(mapper.maintain(e, previous, 300, Some(SfxEvent::Campfire), true));
    assert_eq!(mapper.get(e), Some(PreviousEntityState { event: SfxEvent::Campfire, time: 300 }));
    // Without a trigger nothing plays, but the event is recorded.
    let other = (4, 1);
    let previous = mapper.previous_state(other, 300);
    assert!(!mapper.maintain(other, previous, 300, None, true));
    assert_eq!(
        mapper.get(other),
        Some(PreviousEntityState { event: SfxEvent::Campfire, time: 300 })
    );
}

#[test]
fn cleanup_forgets_the_silent_but_not_the_player() {
    assert_eq!(TRACKING_TIMEOUT, 10 * SECOND);
    let mut mapper = CampfireEventMapper::new();
    let player = (0, 1);
    let old = (1, 1);
    let edge = (2, 1);
    let fresh = (3, 1);
    let late = (4, 1);
    mapper.previous_state(player, 0);
    mapper.previous_state(old, 1 * SECOND);
    mapper.previous_state(edge, 5 * SECOND);
    mapper.previous_state(fresh, 5 * SECOND + 1);
    // A record from after the cleanup's time counts as no time ago.
    mapper.previous_state(late, 99 * SECOND);
    mapper.cleanup(player, 15 * SECOND);
    assert_eq!(mapper.get(player), Some(PreviousEntityState { event: SfxEvent::Idle, time: 0 }));
    assert_eq!(mapper.get(old), None);
    assert_eq!(mapper.get(edge), None);
    assert_eq!(
        mapper.get(fresh),
        Some(PreviousEntityState { event: SfxEvent::Idle, time: 5 * SECOND + 1 })
    );
    assert!(mapper.get(late).is_some());
    // The player is known by index alone.
    mapper.cleanup((0, 9), 1000 * SECOND);
    assert!(mapper.get(player).is_some());
    assert_eq!(mapper.get(fresh), None);
    assert_eq!(mapper.get(late), None);
    mapper.cleanup((7, 1), 1000 * SECOND);
    assert_eq!(mapper.get(player), None);
}

#[test]
fn remembered_for_less_than_the_timeout() {
    let state = |time: u64| PreviousEntityState { event: SfxEvent::Campfire, time };
    assert!(is_remembered((1, 1), state(0), TRACKING_TIMEOUT - 1, (0, 0)));
    assert!(!is_remembered((1, 1), state(0), TRACKING_TIMEOUT, (0, 0)));
    assert!(is_remembered((1, 1), state(0), TRACKING_TIMEOUT, (1, 5)));
    assert!(is_remembered((1, 1), state(50), 20, (0, 0)));
    assert!(!is_remembered((1, 1), state(0), u64::MAX, (0, 0)));
    assert!(is_remembered((1, 1), state(u64::MAX), 0, (0, 0)));
}
