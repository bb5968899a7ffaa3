use sprite_atlas::atlas::AtlasAssembler;
use sprite_atlas::atlas::FrameImage;
use sprite_atlas::atlas::LoadedFolder;
use sprite_atlas::playback::AnimationConfig;
use sprite_atlas::atlas::AssemblyError;
use sprite_atlas::playback::build_animation_from_atlas;
use sprite_atlas::playback::build_atlas_from_folder_of_frames;
use sprite_atlas::playback::tick;

const PERIOD_AT_10_FPS: u64 = 100_000_000;

#[test]
fn timer_from_fps_exact_values() {
    assert_eq!(AnimationConfig::timer_from_fps(1), 1_000_000_000);
    assert_eq!(AnimationConfig::timer_from_fps(10), 100_000_000);
    assert_eq!(AnimationConfig::timer_from_fps(30), 33_333_333);
    assert_eq!(AnimationConfig::timer_from_fps(255), 3_921_568);
}

#[test]
fn new_config_starts_unelapsed() {
    let c = AnimationConfig::new(4, 9, 12);
    assert_eq!(c.first_sprite_index, 4);
    assert_eq!(c.last_sprite_index, 9);
    assert_eq!(c.fps, 12);
    assert_eq!(c.elapsed_nanos, 0);
}

#[test]
fn single_frame_animation_never_moves() {
    let mut c = AnimationConfig::new(7, 7, 10);
    let mut idx: usize = 7;
    let deltas = [
        1u64,
        PERIOD_AT_10_FPS,
        PERIOD_AT_10_FPS * 3,
        u64::MAX,
        999,
        PERIOD_AT_10_FPS - 1,
        1,
    ];
    for d in deltas {
        tick(&mut c, &mut idx, d);
        assert_eq!(idx, 7);
        assert_eq!(c.first_sprite_index, 7);
        assert_eq!(c.last_sprite_index, 7);
    }
}

#[test]
fn four_periods_cycle_a_four_frame_range() {
    // first=2, last=5: exactly one period per tick walks 3, 4, 5 and wraps
    // back to 2.
    let mut c = AnimationConfig::new(2, 5, 10);
    let mut idx: usize = 2;
    let mut seen = Vec::new();
    for _ in 0..4 {
        tick(&mut c, &mut idx, PERIOD_AT_10_FPS);
        seen.push(idx);
    }
    assert_eq!(seen, vec![3, 4, 5, 2]);
    assert_eq!(idx, 2);
}

#[test]
fn tick_accumulates_until_a_full_period() {
    let mut c = AnimationConfig::new(0, 3, 10);
    let mut idx: usize = 0;

    tick(&mut c, &mut idx, 40_000_000);
    assert_eq!(idx, 0);
    assert_eq!(c.elapsed_nanos, 40_000_000);

    tick(&mut c, &mut idx, 59_999_999);
    assert_eq!(idx, 0);
    assert_eq!(c.elapsed_nanos, 99_999_999);

    tick(&mut c, &mut idx, 1);
    assert_eq!(idx, 1);
    // The advance re-arms a fresh countdown: no leftover remainder.
    assert_eq!(c.elapsed_nanos, 0);
}

#[test]
fn overshoot_advances_one_frame_only() {
    let mut c = AnimationConfig::new(0, 5, 10);
    let mut idx: usize = 0;
    tick(&mut c, &mut idx, PERIOD_AT_10_FPS * 10);
    assert_eq!(idx, 1);
    assert_eq!(c.elapsed_nanos, 0);
}

#[test]
fn wrap_goes_back_to_first_not_zero() {
    // A range that does not start at zero must wrap to its own first
    // index.
    let mut c = AnimationConfig::new(10, 12, 10);
    let mut idx: usize = 12;
    tick(&mut c, &mut idx, PERIOD_AT_10_FPS);
    assert_eq!(idx, 10);
}

fn solid_frame(width: usize, height: usize, value: u8) -> FrameImage {
    FrameImage { width, height, pixels: vec![value; width * height * 4] }
}

#[test]
fn build_animation_from_atlas_uses_first_range() {
    let folders = vec![
        (0usize, LoadedFolder { frames: vec![Some(solid_frame(1, 1, 1)), Some(solid_frame(1, 1, 2))] }),
        (1usize, LoadedFolder { frames: vec![Some(solid_frame(1, 1, 3))] }),
    ];
    let atlas = AtlasAssembler::build(&folders).unwrap();
    let c = build_animation_from_atlas(&atlas, 10);
    assert_eq!(c.first_sprite_index, 0);
    assert_eq!(c.last_sprite_index, 1);
    assert_eq!(c.fps, 10);
    assert_eq!(c.elapsed_nanos, 0);
}

#[test]
fn meta_atlas_carries_one_cursor_per_folder() {
    let folders = vec![
        (2usize, LoadedFolder { frames: vec![Some(solid_frame(1, 1, 1)), Some(solid_frame(1, 1, 2))] }),
        (8usize, LoadedFolder { frames: vec![Some(solid_frame(1, 1, 3))] }),
    ];
    let meta = build_atlas_from_folder_of_frames(&folders, 10).unwrap();
    assert_eq!(meta.animation_configs.len(), 2);

    let (id0, ref c0) = meta.animation_configs[0];
    assert_eq!(id0, 2);
    assert_eq!(c0.first_sprite_index, 0);
    assert_eq!(c0.last_sprite_index, 1);
    assert_eq!(c0.fps, 10);
    assert_eq!(c0.elapsed_nanos, 0);

    let (id1, ref c1) = meta.animation_configs[1];
    assert_eq!(id1, 8);
    assert_eq!(c1.first_sprite_index, 2);
    assert_eq!(c1.last_sprite_index, 2);

    assert_eq!(meta.atlas.ranges.len(), 2);
}

#[test]
fn meta_atlas_fails_like_the_assembler() {
    let empty: Vec<(usize, LoadedFolder)> = Vec::new();
    assert_eq!(build_atlas_from_folder_of_frames(&empty, 10).unwrap_err(), AssemblyError::EmptyInput);
    let folders = vec![(3usize, LoadedFolder { frames: vec![None] })];
    assert_eq!(
        build_atlas_from_folder_of_frames(&folders, 10).unwrap_err(),
        AssemblyError::NoFramesOfType { folder_id: 3 }
    );
}
