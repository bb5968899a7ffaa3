//! Per-entity playback: the animation cursor and the fixed-tick driver.
//!
//! An [`AnimationConfig`] is a playback cursor over one contiguous atlas
//! range: first index, last index, target frame rate, and the time
//! accumulated since the last advance. [`tick`] adds the tick's delta to
//! the accumulator and, once a full frame period has elapsed, advances the
//! entity's atlas index by one — wrapping from the last index back to the
//! first — and re-arms a fresh countdown, carrying no leftover remainder.
//!
//! The wrap is advance-then-clamp-to-range: the next index after
//! `last_sprite_index` is `first_sprite_index`, whatever the first index
//! is, so a range that does not start at zero cycles correctly and a
//! single-frame range stays put.

use vstd::prelude::*;

use crate::atlas::AssemblyError;
use crate::atlas::AtlasAssembler;
use crate::atlas::AtlasRangeEntry;
use crate::atlas::LoadedFolder;
use crate::atlas::PackedAtlas;
use crate::atlas::atlas_height;
use crate::atlas::atlas_matches;
use crate::atlas::atlas_width;
use crate::atlas::build_succeeds;
use crate::atlas::fails_like_build;
use crate::atlas::folder_has_usable;
use crate::atlas::folder_len;
use crate::atlas::len_prefix;
use crate::atlas::slots_of;
use crate::atlas::slots_wf;

verus! {

/// Nanoseconds in one second; frame periods are measured in nanoseconds.
pub const NANOS_PER_SECOND: u64 = 1_000_000_000;

/// The length in nanoseconds of one frame at `fps` frames per second.
pub open spec fn frame_period_nanos(fps: u8) -> int {
    NANOS_PER_SECOND as int / fps as int
}

/// A per-entity playback cursor over one contiguous atlas index range.
#[derive(Clone, Copy, Debug)]
pub struct AnimationConfig {
    /// The first atlas index of the range being played.
    pub first_sprite_index: usize,
    /// The last atlas index of the range being played, inclusive.
    pub last_sprite_index: usize,
    /// Target frame rate; always positive.
    pub fps: u8,
    /// Nanoseconds accumulated since the last advance.
    pub elapsed_nanos: u64,
}

/// A well-formed cursor: a non-empty range and a positive frame rate.
pub open spec fn config_wf(c: AnimationConfig) -> bool {
    &&& c.first_sprite_index <= c.last_sprite_index
    &&& c.fps >= 1
}

impl AnimationConfig {
    /// A cursor over `[first, last]` at `fps`, with nothing accumulated.
    pub fn new(first: usize, last: usize, fps: u8) -> (c: AnimationConfig)
        requires
            first <= last,
            fps >= 1,
        ensures
            c.first_sprite_index == first,
            c.last_sprite_index == last,
            c.fps == fps,
            c.elapsed_nanos == 0,
            config_wf(c),
    {
        AnimationConfig { first_sprite_index: first, last_sprite_index: last, fps, elapsed_nanos: 0 }
    }

    /// The one-shot countdown length for `fps`: the nanoseconds one frame
    /// stays on screen.
    pub fn timer_from_fps(fps: u8) -> (nanos: u64)
        requires
            fps >= 1,
        ensures
            nanos == frame_period_nanos(fps),
            nanos >= 1,
    {
        proof {
            vstd::arithmetic::div_mod::lemma_div_non_zero(NANOS_PER_SECOND as int, fps as int);
        }
        NANOS_PER_SECOND / (fps as u64)
    }
}

/// Whether accumulating `delta_nanos` onto `c` completes a frame period.
pub open spec fn spec_tick_fires(c: AnimationConfig, delta_nanos: u64) -> bool {
    c.elapsed_nanos + delta_nanos >= frame_period_nanos(c.fps)
}

/// The index after `idx` within `c`'s range: one further, wrapping from the
/// last index of the range back to the first.
pub open spec fn spec_wrapped_next(c: AnimationConfig, idx: usize) -> usize {
    if idx == c.last_sprite_index {
        c.first_sprite_index
    } else {
        (idx + 1) as usize
    }
}

/// The cursor and index after one tick of `delta_nanos`: on a completed
/// period the index advances with wrap-around and a fresh countdown is
/// armed; otherwise only the accumulator grows.
pub open spec fn spec_tick(c: AnimationConfig, idx: usize, delta_nanos: u64) -> (
    AnimationConfig,
    usize,
) {
    if spec_tick_fires(c, delta_nanos) {
        (
            AnimationConfig {
                first_sprite_index: c.first_sprite_index,
                last_sprite_index: c.last_sprite_index,
                fps: c.fps,
                elapsed_nanos: 0,
            },
            spec_wrapped_next(c, idx),
        )
    } else {
        (
            AnimationConfig {
                first_sprite_index: c.first_sprite_index,
                last_sprite_index: c.last_sprite_index,
                fps: c.fps,
                elapsed_nanos: (c.elapsed_nanos + delta_nanos) as u64,
            },
            idx,
        )
    }
}

/// One fixed tick of the playback driver. Accumulates `delta_nanos` into
/// `config`; once a full frame period has elapsed, writes the next index
/// of the range (wrapping after the last index) into `current_index` and
/// resets the countdown. Never panics and keeps the index inside the range.
pub fn tick(config: &mut AnimationConfig, current_index: &mut usize, delta_nanos: u64)
    requires
        config_wf(*old(config)),
        old(config).first_sprite_index <= *old(current_index),
        *old(current_index) <= old(config).last_sprite_index,
    ensures
        (*final(config), *final(current_index)) == spec_tick(
            *old(config),
            *old(current_index),
            delta_nanos,
        ),
        config_wf(*final(config)),
        final(config).first_sprite_index <= *final(current_index),
        *final(current_index) <= final(config).last_sprite_index,
        final(config).first_sprite_index == old(config).first_sprite_index,
        final(config).last_sprite_index == old(config).last_sprite_index,
        final(config).fps == old(config).fps,
{
    let period = AnimationConfig::timer_from_fps(config.fps);
    let fires = if delta_nanos >= period {
        true
    } else {
        config.elapsed_nanos >= period - delta_nanos
    };
    if fires {
        config.elapsed_nanos = 0;
        if *current_index == config.last_sprite_index {
            *current_index = config.first_sprite_index;
        } else {
            *current_index = *current_index + 1;
        }
    } else {
        config.elapsed_nanos = config.elapsed_nanos + delta_nanos;
    }
}

/// The cursor and index after a whole sequence of ticks, first delta first.
pub open spec fn spec_run_ticks(c: AnimationConfig, idx: usize, deltas: Seq<u64>) -> (
    AnimationConfig,
    usize,
)
    decreases deltas.len(),
{
    if deltas.len() == 0 {
        (c, idx)
    } else {
        let stepped = spec_tick(c, idx, deltas[0]);
        spec_run_ticks(stepped.0, stepped.1, deltas.drop_first())
    }
}

/// Law: a single-frame animation never leaves its frame. For a well-formed
/// cursor whose range holds exactly one index, any sequence of ticks — with
/// any deltas whatsoever — leaves the current index at that one frame, and
/// leaves the range itself unchanged.
pub proof fn lemma_single_frame_never_moves(c: AnimationConfig, deltas: Seq<u64>)
    requires
        config_wf(c),
        c.first_sprite_index == c.last_sprite_index,
    ensures
        spec_run_ticks(c, c.first_sprite_index, deltas).1 == c.first_sprite_index,
        spec_run_ticks(c, c.first_sprite_index, deltas).0.first_sprite_index
            == c.first_sprite_index,
        spec_run_ticks(c, c.first_sprite_index, deltas).0.last_sprite_index
            == c.last_sprite_index,
    decreases deltas.len(),
{
    if deltas.len() > 0 {
        let stepped = spec_tick(c, c.first_sprite_index, deltas[0]);
        assert(stepped.1 == c.first_sprite_index);
        lemma_single_frame_never_moves(stepped.0, deltas.drop_first());
    }
}

/// Law: ticking keeps the index inside the cursor's range, over any
/// sequence of deltas.
pub proof fn lemma_ticks_stay_in_range(c: AnimationConfig, idx: usize, deltas: Seq<u64>)
    requires
        config_wf(c),
        c.first_sprite_index <= idx,
        idx <= c.last_sprite_index,
    ensures
        config_wf(spec_run_ticks(c, idx, deltas).0),
        spec_run_ticks(c, idx, deltas).0.first_sprite_index <= spec_run_ticks(c, idx, deltas).1,
        spec_run_ticks(c, idx, deltas).1 <= spec_run_ticks(c, idx, deltas).0.last_sprite_index,
    decreases deltas.len(),
{
    if deltas.len() > 0 {
        let stepped = spec_tick(c, idx, deltas[0]);
        lemma_ticks_stay_in_range(stepped.0, stepped.1, deltas.drop_first());
    }
}

/// A built atlas together with one ready playback cursor per folder:
/// everything an entity spawner needs.
#[derive(Debug)]
pub struct MetaTextureAtlas {
    /// One `(folder id, cursor)` pair per folder, in folder order; cursor
    /// `i` plays exactly the atlas range of folder `i`.
    pub animation_configs: Vec<(usize, AnimationConfig)>,
    /// The packed atlas the cursors index into.
    pub atlas: PackedAtlas,
}

/// Packs the folders into one atlas and derives one playback cursor per
/// folder, each covering exactly its folder's range at `fps`. Fails
/// exactly as [`AtlasAssembler::build`] does; nothing is returned unless
/// the whole atlas was built.
pub fn build_atlas_from_folder_of_frames(folders: &Vec<(usize, LoadedFolder)>, fps: u8) -> (r:
    Result<MetaTextureAtlas, AssemblyError>)
    requires
        fps >= 1,
        slots_wf(slots_of(folders@)),
        len_prefix(folders@, folders@.len() as int) <= usize::MAX,
        atlas_height(slots_of(folders@)) <= usize::MAX,
        atlas_width(slots_of(folders@)) * atlas_height(slots_of(folders@)) * 4 <= usize::MAX,
    ensures
        r is Ok <==> build_succeeds(folders@),
        fails_like_build(r, folders@),
        r matches Ok(m) ==> {
            &&& atlas_matches(m.atlas, folders@)
            &&& m.animation_configs@.len() == folders@.len()
            &&& forall|i: int|
                0 <= i < folders@.len() ==> (#[trigger] m.animation_configs@[i]).0
                    == folders@[i].0 && m.animation_configs@[i].1.first_sprite_index == len_prefix(
                    folders@,
                    i,
                ) && m.animation_configs@[i].1.last_sprite_index == len_prefix(folders@, i)
                    + folder_len(folders@, i) - 1 && m.animation_configs@[i].1.fps == fps
                    && m.animation_configs@[i].1.elapsed_nanos == 0
        },
{
    let atlas = match AtlasAssembler::build(folders) {
        Ok(atlas) => atlas,
        Err(e) => {
            return Err(e);
        },
    };
    let mut animation_configs: Vec<(usize, AnimationConfig)> = Vec::new();
    let n = atlas.ranges.len();
    let mut i: usize = 0;
    while i < n
        invariant
            i <= n,
            fps >= 1,
            n == folders@.len(),
            atlas_matches(atlas, folders@),
            build_succeeds(folders@),
            animation_configs@.len() == i,
            forall|i2: int|
                0 <= i2 < i ==> (#[trigger] animation_configs@[i2]).0 == folders@[i2].0
                    && animation_configs@[i2].1.first_sprite_index == len_prefix(folders@, i2)
                    && animation_configs@[i2].1.last_sprite_index == len_prefix(folders@, i2)
                    + folder_len(folders@, i2) - 1 && animation_configs@[i2].1.fps == fps
                    && animation_configs@[i2].1.elapsed_nanos == 0,
        decreases n - i,
    {
        let entry = &atlas.ranges[i];
        proof {
            // A folder that passed the build has a usable frame, so its
            // range is non-empty and the cursor's bounds are ordered.
            assert(folder_has_usable(folders@[i as int].1));
            assert(folder_len(folders@, i as int) >= 1);
        }
        let config = AnimationConfig::new(entry.first_index, entry.last_index, fps);
        animation_configs.push((entry.folder_id, config));
        i = i + 1;
    }
    Ok(MetaTextureAtlas { animation_configs, atlas })
}

/// The initial cursor for one packed range: the entity starts on the first
/// frame of the first folder's range. Derives the playback cursor that a
/// freshly spawned entity uses from a built atlas's range table.
pub fn build_animation_from_atlas(atlas: &PackedAtlas, fps: u8) -> (c: AnimationConfig)
    requires
        atlas.ranges@.len() > 0,
        atlas.ranges@[0].first_index <= atlas.ranges@[0].last_index,
        fps >= 1,
    ensures
        c.first_sprite_index == atlas.ranges@[0].first_index,
        c.last_sprite_index == atlas.ranges@[0].last_index,
        c.fps == fps,
        c.elapsed_nanos == 0,
        config_wf(c),
{
    let entry: &AtlasRangeEntry = &atlas.ranges[0];
    AnimationConfig::new(entry.first_index, entry.last_index, fps)
}

} // verus!
