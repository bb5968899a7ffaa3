use sprite_atlas::monster::AtlasRangeSelector;
use sprite_atlas::monster::MossMonsterState;
use sprite_atlas::monster::MossMonsterVary;
use sprite_atlas::monster::resolve_flip;
use sprite_atlas::monster::transition;

#[test]
fn identity_transition_is_a_no_op() {
    let r = transition(MossMonsterState::Idle, MossMonsterState::Idle);
    assert_eq!(r, (None, None));
    let r = transition(MossMonsterState::Attack, MossMonsterState::Attack);
    assert_eq!(r, (None, None));
    let r = transition(MossMonsterState::WalkLeft, MossMonsterState::WalkLeft);
    assert_eq!(r, (Some(true), None));
}

#[test]
fn idle_to_walk_left_flips_and_swaps_range() {
    let r = transition(MossMonsterState::Idle, MossMonsterState::WalkLeft);
    assert_eq!(r, (Some(true), Some(AtlasRangeSelector::Walk)));
}

#[test]
fn walk_left_to_walk_right_only_unflips() {
    let r = transition(MossMonsterState::WalkLeft, MossMonsterState::WalkRight);
    assert_eq!(r, (Some(false), None));
}

#[test]
fn attack_and_idle_carry_no_flip_opinion() {
    let r = transition(MossMonsterState::WalkRight, MossMonsterState::Attack);
    assert_eq!(r, (None, Some(AtlasRangeSelector::Attack)));
    let r = transition(MossMonsterState::Attack, MossMonsterState::Idle);
    assert_eq!(r, (None, Some(AtlasRangeSelector::Idle)));
}

#[test]
fn to_data_matches_transition() {
    let states = [
        MossMonsterState::WalkLeft,
        MossMonsterState::WalkRight,
        MossMonsterState::Idle,
        MossMonsterState::Attack,
    ];
    for current in states {
        for requested in states {
            assert_eq!(current.to_data(&requested), transition(current, requested));
        }
    }
}

#[test]
fn range_selector_mapping() {
    assert_eq!(MossMonsterState::WalkLeft.range_selector(), AtlasRangeSelector::Walk);
    assert_eq!(MossMonsterState::WalkRight.range_selector(), AtlasRangeSelector::Walk);
    assert_eq!(MossMonsterState::Idle.range_selector(), AtlasRangeSelector::Idle);
    assert_eq!(MossMonsterState::Attack.range_selector(), AtlasRangeSelector::Attack);
}

#[test]
fn flip_x_state_mapping() {
    assert_eq!(MossMonsterState::WalkLeft.flip_x_state(), Some(true));
    assert_eq!(MossMonsterState::WalkRight.flip_x_state(), Some(false));
    assert_eq!(MossMonsterState::Idle.flip_x_state(), None);
    assert_eq!(MossMonsterState::Attack.flip_x_state(), None);
}

#[test]
fn vary_starts_idle_and_tracks_requests() {
    let mut vary = MossMonsterVary::new();
    assert_eq!(vary.state(), MossMonsterState::Idle);

    let effects = vary.walk_left();
    assert_eq!(effects, (Some(true), Some(AtlasRangeSelector::Walk)));
    assert_eq!(vary.state(), MossMonsterState::WalkLeft);

    // Walking left again changes nothing but the (already set) flip.
    let effects = vary.walk_left();
    assert_eq!(effects, (Some(true), None));

    let effects = vary.walk_right();
    assert_eq!(effects, (Some(false), None));
    assert_eq!(vary.state(), MossMonsterState::WalkRight);

    let effects = vary.attack();
    assert_eq!(effects, (None, Some(AtlasRangeSelector::Attack)));
    assert_eq!(vary.state(), MossMonsterState::Attack);

    let effects = vary.walk_idle();
    assert_eq!(effects, (None, Some(AtlasRangeSelector::Idle)));
    assert_eq!(vary.state(), MossMonsterState::Idle);
}

#[test]
fn vary_default_is_idle() {
    let vary = MossMonsterVary::default();
    assert_eq!(vary.state(), MossMonsterState::Idle);
}

#[test]
fn resolve_flip_keeps_current_on_none() {
    assert!(resolve_flip(Some(true), false));
    assert!(!resolve_flip(Some(false), true));
    assert!(resolve_flip(None, true));
    assert!(!resolve_flip(None, false));
}
