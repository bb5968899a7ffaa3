//! Atlas assembly: packing loaded frame images into one atlas.
//!
//! The assembler consumes the folders in their given order and reserves one
//! atlas index per frame slot, resolved or not, so that each folder's range
//! is fixed by folder lengths alone: folder `N`'s first index is the sum of
//! the lengths of folders `0..N`. An unresolved frame keeps its slot (the
//! range arithmetic never renumbers) but contributes nothing to the image
//! and gets no sub-rectangle.
//!
//! The packing itself is a vertical strip: the atlas is as wide as the
//! widest resolved frame, resolved frames sit one below another in slot
//! order at `x == 0`, and each row is padded on the right with zero bytes
//! up to the atlas width. Frames store RGBA pixel data, four bytes per
//! pixel, row-major.

use vstd::prelude::*;

verus! {

/// One raw frame image: RGBA bytes, row-major, four bytes per pixel.
#[derive(Debug)]
pub struct FrameImage {
    /// Width in pixels.
    pub width: usize,
    /// Height in pixels.
    pub height: usize,
    /// The pixel bytes; exactly `width * height * 4` of them.
    pub pixels: Vec<u8>,
}

/// A well-formed frame: the byte count matches the dimensions.
pub open spec fn frame_wf(f: FrameImage) -> bool {
    f.pixels@.len() == f.width * f.height * 4
}

/// One loaded folder: its frame slots in their intrinsic order. A slot is
/// `Some` when the reference behind it resolved to pixel data and `None`
/// when it did not (wrong asset type, or data unavailable); an unresolved
/// slot is skipped during packing but still reserves its atlas index.
#[derive(Debug)]
pub struct LoadedFolder {
    /// The frame slots, in the folder's stable order.
    pub frames: Vec<Option<FrameImage>>,
}

/// The contiguous inclusive atlas index range `[first_index, last_index]`
/// that one folder occupies.
#[derive(Clone, Copy, Debug, PartialEq, Eq, Structural)]
pub struct AtlasRangeEntry {
    /// The folder this range belongs to.
    pub folder_id: usize,
    /// The first atlas index of the folder's frames.
    pub first_index: usize,
    /// The last atlas index of the folder's frames, inclusive.
    pub last_index: usize,
}

/// The sub-rectangle of the atlas that one packed frame occupies, in
/// pixels.
#[derive(Clone, Copy, Debug, PartialEq, Eq, Structural)]
pub struct AtlasRect {
    /// Left edge.
    pub x: usize,
    /// Top edge.
    pub y: usize,
    /// Width in pixels.
    pub width: usize,
    /// Height in pixels.
    pub height: usize,
}

/// Why a build attempt failed as a whole.
#[derive(Clone, Copy, Debug, PartialEq, Eq, Structural)]
pub enum AssemblyError {
    /// The folder list itself was empty.
    EmptyInput,
    /// An entire folder yielded zero usable frames.
    NoFramesOfType {
        /// The first folder, in the given order, with no usable frame.
        folder_id: usize,
    },
}

/// The packed atlas: one owned pixel buffer, the layout mapping each atlas
/// index to its sub-rectangle (`None` for a reserved slot whose frame never
/// resolved), and the per-folder ranges.
#[derive(Debug)]
pub struct PackedAtlas {
    /// Atlas width in pixels: the widest resolved frame.
    pub width: usize,
    /// Atlas height in pixels: the heights of all resolved frames summed.
    pub height: usize,
    /// The packed RGBA bytes, `width * height * 4` of them.
    pub image: Vec<u8>,
    /// One entry per atlas index, in index order.
    pub layout: Vec<Option<AtlasRect>>,
    /// One range per folder, in folder order.
    pub ranges: Vec<AtlasRangeEntry>,
}

// ---------------------------------------------------------------------------
// The model of the input: folders, their flattened frame slots, and the
// prefix sums the ranges and the strip layout are built from.
// ---------------------------------------------------------------------------

/// The number of frame slots of folder `i`.
pub open spec fn folder_len(folders: Seq<(usize, LoadedFolder)>, i: int) -> int {
    folders[i].1.frames@.len() as int
}

/// The number of frame slots of folders `0..i`: folder `i`'s first atlas
/// index.
pub open spec fn len_prefix(folders: Seq<(usize, LoadedFolder)>, i: int) -> int
    decreases i,
{
    if i <= 0 {
        0
    } else {
        len_prefix(folders, i - 1) + folder_len(folders, i - 1)
    }
}

/// All frame slots of all folders, concatenated in folder order: slot `j`
/// of this sequence owns atlas index `j`.
pub open spec fn slots_of(folders: Seq<(usize, LoadedFolder)>) -> Seq<Option<FrameImage>>
    decreases folders.len(),
{
    if folders.len() == 0 {
        Seq::empty()
    } else {
        folders.first().1.frames@ + slots_of(folders.drop_first())
    }
}

/// Whether a folder has at least one usable (resolved) frame.
pub open spec fn folder_has_usable(folder: LoadedFolder) -> bool {
    exists|k: int| 0 <= k < folder.frames@.len() && folder.frames@[k] is Some
}

/// The widest resolved frame among the first `j` slots; `0` when none is
/// resolved.
pub open spec fn max_width_prefix(slots: Seq<Option<FrameImage>>, j: int) -> int
    decreases j,
{
    if j <= 0 {
        0
    } else {
        let rest = max_width_prefix(slots, j - 1);
        match slots[j - 1] {
            Some(f) => if f.width > rest {
                f.width as int
            } else {
                rest
            },
            None => rest,
        }
    }
}

/// The heights of the resolved frames among the first `j` slots, summed:
/// the strip row at which slot `j`'s frame (if any) is placed.
pub open spec fn height_prefix(slots: Seq<Option<FrameImage>>, j: int) -> int
    decreases j,
{
    if j <= 0 {
        0
    } else {
        height_prefix(slots, j - 1) + match slots[j - 1] {
            Some(f) => f.height as int,
            None => 0,
        }
    }
}

/// The atlas width: the widest resolved frame over all slots.
pub open spec fn atlas_width(slots: Seq<Option<FrameImage>>) -> int {
    max_width_prefix(slots, slots.len() as int)
}

/// The atlas height: the heights of all resolved frames summed.
pub open spec fn atlas_height(slots: Seq<Option<FrameImage>>) -> int {
    height_prefix(slots, slots.len() as int)
}

/// `n` zero bytes.
pub open spec fn zero_bytes(n: int) -> Seq<u8> {
    Seq::new(if n >= 0 { n as nat } else { 0 }, |i: int| 0u8)
}

/// Row `yy` of frame `f` as it appears in the atlas: the frame's own row,
/// padded on the right with zero bytes up to the atlas width `w_atlas`.
pub open spec fn frame_row(f: FrameImage, w_atlas: int, yy: int) -> Seq<u8> {
    f.pixels@.subrange(yy * f.width * 4, yy * f.width * 4 + f.width * 4) + zero_bytes(
        (w_atlas - f.width) * 4,
    )
}

/// The first `n` padded rows of frame `f`, concatenated.
pub open spec fn frame_rows(f: FrameImage, w_atlas: int, n: int) -> Seq<u8>
    decreases n,
{
    if n <= 0 {
        Seq::empty()
    } else {
        frame_rows(f, w_atlas, n - 1) + frame_row(f, w_atlas, n - 1)
    }
}

/// The bytes one slot contributes to the atlas: all padded rows of its
/// frame, or nothing for an unresolved slot.
pub open spec fn slot_block(slot: Option<FrameImage>, w_atlas: int) -> Seq<u8> {
    match slot {
        Some(f) => frame_rows(f, w_atlas, f.height as int),
        None => Seq::empty(),
    }
}

/// The atlas bytes contributed by the first `j` slots, concatenated in
/// slot order.
pub open spec fn image_prefix(slots: Seq<Option<FrameImage>>, w_atlas: int, j: int) -> Seq<u8>
    decreases j,
{
    if j <= 0 {
        Seq::empty()
    } else {
        image_prefix(slots, w_atlas, j - 1) + slot_block(slots[j - 1], w_atlas)
    }
}

/// The whole packed image: every slot's contribution in slot order.
pub open spec fn atlas_image(slots: Seq<Option<FrameImage>>, w_atlas: int) -> Seq<u8> {
    image_prefix(slots, w_atlas, slots.len() as int)
}

// ---------------------------------------------------------------------------
// Lemmas about the prefix sums and the flattened slots.
// ---------------------------------------------------------------------------

/// Slot counts only grow along the folder list.
pub proof fn lemma_len_prefix_mono(folders: Seq<(usize, LoadedFolder)>, a: int, b: int)
    requires
        0 <= a <= b,
    ensures
        len_prefix(folders, a) <= len_prefix(folders, b),
    decreases b - a,
{
    if a < b {
        lemma_len_prefix_mono(folders, a, b - 1);
    }
}

/// Dropping the first folder shifts the slot-count prefix by that folder's
/// length.
proof fn lemma_len_prefix_drop(folders: Seq<(usize, LoadedFolder)>, i: int)
    requires
        1 <= i <= folders.len(),
    ensures
        len_prefix(folders, i) == folder_len(folders, 0) + len_prefix(folders.drop_first(), i - 1),
    decreases i,
{
    if i > 1 {
        lemma_len_prefix_drop(folders, i - 1);
        assert(folders.drop_first()[i - 2] == folders[i - 1]);
        assert(len_prefix(folders, i) == len_prefix(folders, i - 1) + folder_len(folders, i - 1));
        assert(len_prefix(folders.drop_first(), i - 1) == len_prefix(folders.drop_first(), i - 2)
            + folder_len(folders.drop_first(), i - 2));
        assert(folder_len(folders.drop_first(), i - 2) == folder_len(folders, i - 1));
    } else {
        assert(len_prefix(folders, 1) == len_prefix(folders, 0) + folder_len(folders, 0));
        assert(len_prefix(folders.drop_first(), 0) == 0);
    }
}

/// The flattened slots are exactly as many as the folder lengths sum to.
pub proof fn lemma_slots_len(folders: Seq<(usize, LoadedFolder)>)
    ensures
        slots_of(folders).len() == len_prefix(folders, folders.len() as int),
    decreases folders.len(),
{
    if folders.len() > 0 {
        lemma_slots_len(folders.drop_first());
        lemma_len_prefix_drop(folders, folders.len() as int);
    }
}

/// Slot `len_prefix(i) + k` of the flattened sequence is frame `k` of
/// folder `i`.
pub proof fn lemma_slot_index(folders: Seq<(usize, LoadedFolder)>, i: int, k: int)
    requires
        0 <= i < folders.len(),
        0 <= k < folder_len(folders, i),
    ensures
        0 <= len_prefix(folders, i) + k < slots_of(folders).len(),
        slots_of(folders)[len_prefix(folders, i) + k] == folders[i].1.frames@[k],
    decreases i,
{
    lemma_slots_len(folders);
    lemma_len_prefix_mono(folders, 0, i);
    lemma_len_prefix_mono(folders, i + 1, folders.len() as int);
    if i == 0 {
        assert(slots_of(folders) == folders.first().1.frames@ + slots_of(folders.drop_first()));
    } else {
        lemma_slot_index(folders.drop_first(), i - 1, k);
        lemma_len_prefix_drop(folders, i);
        assert(slots_of(folders) == folders.first().1.frames@ + slots_of(folders.drop_first()));
    }
}

/// Strip rows only grow along the slots.
pub proof fn lemma_height_prefix_mono(slots: Seq<Option<FrameImage>>, a: int, b: int)
    requires
        0 <= a <= b,
    ensures
        height_prefix(slots, a) <= height_prefix(slots, b),
    decreases b - a,
{
    if a < b {
        lemma_height_prefix_mono(slots, a, b - 1);
    }
}

/// The widest-so-far only grows along the slots.
proof fn lemma_max_width_prefix_mono(slots: Seq<Option<FrameImage>>, a: int, b: int)
    requires
        0 <= a <= b,
    ensures
        max_width_prefix(slots, a) <= max_width_prefix(slots, b),
    decreases b - a,
{
    if a < b {
        lemma_max_width_prefix_mono(slots, a, b - 1);
    }
}

/// Every resolved frame fits the atlas width.
pub proof fn lemma_max_width_covers(slots: Seq<Option<FrameImage>>, j: int)
    requires
        0 <= j < slots.len(),
        slots[j] is Some,
    ensures
        slots[j]->Some_0.width <= atlas_width(slots),
{
    lemma_max_width_prefix_mono(slots, j + 1, slots.len() as int);
}

/// Each padded row is exactly `w_atlas * 4` bytes.
proof fn lemma_frame_row_len(f: FrameImage, w_atlas: int, yy: int)
    requires
        frame_wf(f),
        f.width <= w_atlas,
        0 <= yy < f.height,
    ensures
        frame_row(f, w_atlas, yy).len() == w_atlas * 4,
{
    assert(0 <= yy * f.width * 4 && yy * f.width * 4 + f.width * 4 <= f.pixels@.len()) by (
    nonlinear_arith)
        requires
            frame_wf(f),
            0 <= yy < f.height,
    {
    }
    assert(f.width * 4 + (w_atlas - f.width) * 4 == w_atlas * 4) by (nonlinear_arith);
}

/// The first `n` padded rows of a frame are exactly `n * w_atlas * 4`
/// bytes.
proof fn lemma_frame_rows_len(f: FrameImage, w_atlas: int, n: int)
    requires
        frame_wf(f),
        f.width <= w_atlas,
        0 <= n <= f.height,
    ensures
        frame_rows(f, w_atlas, n).len() == n * (w_atlas * 4),
    decreases n,
{
    if n > 0 {
        lemma_frame_rows_len(f, w_atlas, n - 1);
        lemma_frame_row_len(f, w_atlas, n - 1);
        assert(frame_rows(f, w_atlas, n) == frame_rows(f, w_atlas, n - 1) + frame_row(
            f,
            w_atlas,
            n - 1,
        ));
        assert(frame_rows(f, w_atlas, n).len() == frame_rows(f, w_atlas, n - 1).len() + frame_row(
            f,
            w_atlas,
            n - 1,
        ).len());
        assert((n - 1) * (w_atlas * 4) + w_atlas * 4 == n * (w_atlas * 4)) by (nonlinear_arith);
    } else {
        assert(frame_rows(f, w_atlas, n).len() == 0);
        assert(n * (w_atlas * 4) == 0) by (nonlinear_arith)
            requires
                n == 0,
        {
        }
    }
}

/// The bytes of the first `j` slots are exactly the strip rows so far,
/// `w_atlas * 4` bytes per row.
pub proof fn lemma_image_prefix_len(slots: Seq<Option<FrameImage>>, w_atlas: int, j: int)
    requires
        0 <= j <= slots.len(),
        forall|j2: int|
            0 <= j2 < slots.len() && slots[j2] is Some ==> frame_wf(#[trigger] slots[j2]->Some_0)
                && slots[j2]->Some_0.width <= w_atlas,
    ensures
        image_prefix(slots, w_atlas, j).len() == height_prefix(slots, j) * (w_atlas * 4),
    decreases j,
{
    if j > 0 {
        lemma_image_prefix_len(slots, w_atlas, j - 1);
        match slots[j - 1] {
            Some(f) => {
                lemma_frame_rows_len(f, w_atlas, f.height as int);
                assert(height_prefix(slots, j - 1) * (w_atlas * 4) + f.height * (w_atlas * 4)
                    == height_prefix(slots, j) * (w_atlas * 4)) by (nonlinear_arith)
                    requires
                        height_prefix(slots, j) == height_prefix(slots, j - 1) + f.height,
                {
                }
            },
            None => {},
        }
    }
}

/// Every resolved frame among the slots is well-formed.
pub open spec fn slots_wf(slots: Seq<Option<FrameImage>>) -> bool {
    forall|j: int|
        0 <= j < slots.len() ==> ((#[trigger] slots[j]) matches Some(f) ==> frame_wf(f))
}

/// Whether a build of these folders succeeds: the list is non-empty and
/// every folder has at least one usable frame.
pub open spec fn build_succeeds(folders: Seq<(usize, LoadedFolder)>) -> bool {
    folders.len() > 0 && forall|i: int|
        0 <= i < folders.len() ==> folder_has_usable((#[trigger] folders[i]).1)
}

/// Whether `ranges` is exactly the range table of `folders`: one entry per
/// folder carrying its id, starting at the summed lengths of the folders
/// before it and ending `length - 1` later.
pub open spec fn ranges_match(
    ranges: Seq<AtlasRangeEntry>,
    folders: Seq<(usize, LoadedFolder)>,
) -> bool {
    &&& ranges.len() == folders.len()
    &&& forall|i: int|
        0 <= i < folders.len() ==> (#[trigger] ranges[i]).folder_id == folders[i].0
            && ranges[i].first_index == len_prefix(folders, i) && ranges[i].last_index
            == len_prefix(folders, i) + folder_len(folders, i) - 1
}

/// Whether `p` is exactly the packed atlas of `folders`: the range table
/// of the folder lengths, one layout entry per slot placing each resolved
/// frame at its strip row (and `None` for unresolved slots), the strip
/// dimensions, and the strip's bytes.
pub open spec fn atlas_matches(p: PackedAtlas, folders: Seq<(usize, LoadedFolder)>) -> bool {
    &&& ranges_match(p.ranges@, folders)
    &&& p.layout@.len() == slots_of(folders).len()
    &&& forall|j: int|
        0 <= j < slots_of(folders).len() ==> #[trigger] p.layout@[j] == (match slots_of(
            folders,
        )[j] {
            Some(f) => Some(
                AtlasRect {
                    x: 0,
                    y: height_prefix(slots_of(folders), j) as usize,
                    width: f.width,
                    height: f.height,
                },
            ),
            None => None,
        })
    &&& p.width == atlas_width(slots_of(folders))
    &&& p.height == atlas_height(slots_of(folders))
    &&& p.image@ == atlas_image(slots_of(folders), p.width as int)
    &&& p.image@.len() == p.width * p.height * 4
}

/// Whether `r` fails exactly as a build of `folders` must: with
/// [`AssemblyError::EmptyInput`] on an empty list, and otherwise with
/// [`AssemblyError::NoFramesOfType`] naming the first folder, in folder
/// order, that has no usable frame.
pub open spec fn fails_like_build<T>(
    r: Result<T, AssemblyError>,
    folders: Seq<(usize, LoadedFolder)>,
) -> bool {
    &&& folders.len() == 0 ==> r == Err::<T, AssemblyError>(AssemblyError::EmptyInput)
    &&& folders.len() > 0 && r is Err ==> exists|i: int|
        0 <= i < folders.len() && !folder_has_usable((#[trigger] folders[i]).1) && (forall|
            i2: int,
        |
            0 <= i2 < i ==> folder_has_usable(folders[i2].1)) && r == Err::<T, AssemblyError>(
            AssemblyError::NoFramesOfType { folder_id: folders[i].0 },
        )
}

/// The assembler: packs loaded folders into one atlas, once, at startup.
pub struct AtlasAssembler;

impl AtlasAssembler {
    /// Builds the packed atlas from the folders, processed in the given
    /// order (which must match the order the load requests were issued
    /// in for the ranges to be meaningful).
    ///
    /// Every frame slot reserves one atlas index whether or not its frame
    /// resolved, so folder `N`'s range starts at the summed lengths of
    /// folders `0..N` and the table never renumbers on a skip. Resolved
    /// frames are packed top to bottom in slot order into a vertical
    /// strip as wide as the widest resolved frame; rows are right-padded
    /// with zero bytes. The whole atlas is built or nothing is: an empty
    /// folder list fails with [`AssemblyError::EmptyInput`], and a folder
    /// with no usable frame at all fails with
    /// [`AssemblyError::NoFramesOfType`] naming the first such folder.
    pub fn build(folders: &Vec<(usize, LoadedFolder)>) -> (r: Result<PackedAtlas, AssemblyError>)
        requires
            slots_wf(slots_of(folders@)),
            len_prefix(folders@, folders@.len() as int) <= usize::MAX,
            atlas_height(slots_of(folders@)) <= usize::MAX,
            atlas_width(slots_of(folders@)) * atlas_height(slots_of(folders@)) * 4 <= usize::MAX,
        ensures
            r is Ok <==> build_succeeds(folders@),
            fails_like_build(r, folders@),
            r matches Ok(p) ==> atlas_matches(p, folders@),
    {
        let ghost gf = folders@;
        let ghost slots = slots_of(gf);
        proof {
            lemma_slots_len(gf);
        }
        let n = folders.len();
        if n == 0 {
            return Err(AssemblyError::EmptyInput);
        }
        // First pass: check every folder for a usable frame and fix the
        // ranges from the folder-length prefix sums.
        let mut ranges: Vec<AtlasRangeEntry> = Vec::new();
        let mut cursor: usize = 0;
        let mut i: usize = 0;
        while i < n
            invariant
                i <= n,
                n == gf.len(),
                folders@ == gf,
                cursor == len_prefix(gf, i as int),
                len_prefix(gf, n as int) <= usize::MAX,
                ranges@.len() == i,
                forall|i2: int|
                    0 <= i2 < i ==> (#[trigger] ranges@[i2]).folder_id == gf[i2].0
                        && ranges@[i2].first_index == len_prefix(gf, i2)
                        && ranges@[i2].last_index == len_prefix(gf, i2) + folder_len(gf, i2) - 1,
                forall|i2: int| 0 <= i2 < i ==> folder_has_usable((#[trigger] gf[i2]).1),
            decreases n - i,
        {
            let frames = &folders[i].1.frames;
            let m = frames.len();
            let mut usable = false;
            let mut k: usize = 0;
            while k < m
                invariant
                    k <= m,
                    i < n,
                    n == gf.len(),
                    folders@ == gf,
                    frames@ == gf[i as int].1.frames@,
                    m == folder_len(gf, i as int),
                    usable ==> folder_has_usable(gf[i as int].1),
                    !usable ==> forall|k2: int|
                        0 <= k2 < k ==> !((#[trigger] frames@[k2]) is Some),
                decreases m - k,
            {
                if frames[k].is_some() {
                    proof {
                        assert(frames@[k as int] is Some);
                    }
                    usable = true;
                }
                k = k + 1;
            }
            if !usable {
                proof {
                    assert(!folder_has_usable(gf[i as int].1));
                }
                return Err(AssemblyError::NoFramesOfType { folder_id: folders[i].0 });
            }
            proof {
                lemma_len_prefix_mono(gf, i + 1 as int, n as int);
            }
            ranges.push(
                AtlasRangeEntry {
                    folder_id: folders[i].0,
                    first_index: cursor,
                    last_index: cursor + m - 1,
                },
            );
            cursor = cursor + m;
            i = i + 1;
        }
        // Second pass: the strip dimensions — widest resolved frame, all
        // resolved heights summed.
        let mut atlas_w: usize = 0;
        let mut atlas_h: usize = 0;
        let ghost mut j: int = 0;
        let mut i: usize = 0;
        while i < n
            invariant
                i <= n,
                n == gf.len(),
                folders@ == gf,
                slots == slots_of(gf),
                slots.len() == len_prefix(gf, n as int),
                j == len_prefix(gf, i as int),
                atlas_w == max_width_prefix(slots, j),
                atlas_h == height_prefix(slots, j),
                atlas_height(slots) <= usize::MAX,
            decreases n - i,
        {
            let frames = &folders[i].1.frames;
            let m = frames.len();
            let mut k: usize = 0;
            while k < m
                invariant
                    k <= m,
                    i < n,
                    n == gf.len(),
                    folders@ == gf,
                    slots == slots_of(gf),
                    slots.len() == len_prefix(gf, n as int),
                    frames@ == gf[i as int].1.frames@,
                    m == folder_len(gf, i as int),
                    j == len_prefix(gf, i as int) + k,
                    atlas_w == max_width_prefix(slots, j),
                    atlas_h == height_prefix(slots, j),
                    atlas_height(slots) <= usize::MAX,
                decreases m - k,
            {
                proof {
                    lemma_slot_index(gf, i as int, k as int);
                    lemma_len_prefix_mono(gf, i + 1 as int, n as int);
                    lemma_height_prefix_mono(slots, j + 1, slots.len() as int);
                }
                match &frames[k] {
                    Some(f) => {
                        if f.width > atlas_w {
                            atlas_w = f.width;
                        }
                        atlas_h = atlas_h + f.height;
                    },
                    None => {},
                }
                proof {
                    j = j + 1;
                }
                k = k + 1;
            }
            i = i + 1;
        }
        proof {
            assert(j == slots.len());
            assert(atlas_w == atlas_width(slots));
            assert(atlas_h == atlas_height(slots));
        }
        // Third pass: the layout table and the packed bytes, slot by slot.
        let mut image: Vec<u8> = Vec::new();
        let mut layout: Vec<Option<AtlasRect>> = Vec::new();
        let mut y_cursor: usize = 0;
        let ghost mut j: int = 0;
        let mut i: usize = 0;
        while i < n
            invariant
                i <= n,
                n == gf.len(),
                folders@ == gf,
                slots == slots_of(gf),
                slots.len() == len_prefix(gf, n as int),
                slots_wf(slots),
                j == len_prefix(gf, i as int),
                atlas_w == atlas_width(slots),
                atlas_h == atlas_height(slots),
                atlas_height(slots) <= usize::MAX,
                atlas_width(slots) * atlas_height(slots) * 4 <= usize::MAX,
                y_cursor == height_prefix(slots, j),
                layout@.len() == j,
                forall|j2: int|
                    0 <= j2 < j ==> #[trigger] layout@[j2] == (match slots[j2] {
                        Some(f) => Some(
                            AtlasRect {
                                x: 0,
                                y: height_prefix(slots, j2) as usize,
                                width: f.width,
                                height: f.height,
                            },
                        ),
                        None => None,
                    }),
                image@ == image_prefix(slots, atlas_w as int, j),
            decreases n - i,
        {
            let frames = &folders[i].1.frames;
            let m = frames.len();
            let mut k: usize = 0;
            while k < m
                invariant
                    k <= m,
                    i < n,
                    n == gf.len(),
                    folders@ == gf,
                    slots == slots_of(gf),
                    slots.len() == len_prefix(gf, n as int),
                    slots_wf(slots),
                    frames@ == gf[i as int].1.frames@,
                    m == folder_len(gf, i as int),
                    j == len_prefix(gf, i as int) + k,
                    atlas_w == atlas_width(slots),
                    atlas_h == atlas_height(slots),
                    atlas_height(slots) <= usize::MAX,
                    atlas_width(slots) * atlas_height(slots) * 4 <= usize::MAX,
                    y_cursor == height_prefix(slots, j),
                    layout@.len() == j,
                    forall|j2: int|
                        0 <= j2 < j ==> #[trigger] layout@[j2] == (match slots[j2] {
                            Some(f) => Some(
                                AtlasRect {
                                    x: 0,
                                    y: height_prefix(slots, j2) as usize,
                                    width: f.width,
                                    height: f.height,
                                },
                            ),
                            None => None,
                        }),
                    image@ == image_prefix(slots, atlas_w as int, j),
                decreases m - k,
            {
                proof {
                    lemma_slot_index(gf, i as int, k as int);
                    lemma_len_prefix_mono(gf, i + 1 as int, n as int);
                    lemma_height_prefix_mono(slots, j + 1, slots.len() as int);
                }
                match &frames[k] {
                    Some(f) => {
                        proof {
                            lemma_max_width_covers(slots, j);
                            assert(frame_wf(*f));
                        }
                        if f.height > 0 {
                            proof {
                                assert(atlas_w * 4 <= atlas_w * atlas_h * 4) by (nonlinear_arith)
                                    requires
                                        atlas_h >= 1,
                                        atlas_w >= 0,
                                {
                                }
                                assert(f.height as int * (f.width as int * 4) == f.width as int
                                    * f.height as int * 4) by (nonlinear_arith);
                            }
                            let w4 = f.width * 4;
                            let pad4 = (atlas_w - f.width) * 4;
                            let plen = f.pixels.len();
                            let mut yy: usize = 0;
                            while yy < f.height
                                invariant
                                    yy <= f.height,
                                    frame_wf(*f),
                                    f.width <= atlas_w,
                                    w4 == f.width * 4,
                                    pad4 == (atlas_w - f.width) * 4,
                                    plen == f.pixels@.len(),
                                    plen == f.height as int * w4 as int,
                                    image@ == image_prefix(slots, atlas_w as int, j) + frame_rows(
                                        *f,
                                        atlas_w as int,
                                        yy as int,
                                    ),
                                decreases f.height - yy,
                            {
                                proof {
                                    assert((yy + 1) as int * (w4 as int) <= f.height as int * (
                                    w4 as int)) by (nonlinear_arith)
                                        requires
                                            yy + 1 <= f.height,
                                            w4 >= 0,
                                    {
                                    }
                                    assert(yy as int * (w4 as int) + w4 as int == (yy + 1) as int
                                        * (w4 as int)) by (nonlinear_arith);
                                }
                                let row_base = yy * w4;
                                let ghost row_src = f.pixels@.subrange(
                                    row_base as int,
                                    row_base as int + w4 as int,
                                );
                                let mut t: usize = 0;
                                while t < w4
                                    invariant
                                        t <= w4,
                                        row_base == yy * w4,
                                        plen == f.pixels@.len(),
                                        row_base + w4 <= plen,
                                        row_src == f.pixels@.subrange(
                                            row_base as int,
                                            row_base as int + w4 as int,
                                        ),
                                        image@ == image_prefix(slots, atlas_w as int, j)
                                            + frame_rows(*f, atlas_w as int, yy as int)
                                            + f.pixels@.subrange(
                                            row_base as int,
                                            row_base as int + t as int,
                                        ),
                                    decreases w4 - t,
                                {
                                    let b = f.pixels[row_base + t];
                                    image.push(b);
                                    proof {
                                        assert(image@ =~= image_prefix(slots, atlas_w as int, j)
                                            + frame_rows(*f, atlas_w as int, yy as int)
                                            + f.pixels@.subrange(
                                            row_base as int,
                                            row_base as int + (t + 1) as int,
                                        ));
                                    }
                                    t = t + 1;
                                }
                                let mut q: usize = 0;
                                while q < pad4
                                    invariant
                                        q <= pad4,
                                        image@ == image_prefix(slots, atlas_w as int, j)
                                            + frame_rows(*f, atlas_w as int, yy as int) + row_src
                                            + zero_bytes(q as int),
                                    decreases pad4 - q,
                                {
                                    image.push(0u8);
                                    proof {
                                        assert(image@ =~= image_prefix(slots, atlas_w as int, j)
                                            + frame_rows(*f, atlas_w as int, yy as int) + row_src
                                            + zero_bytes(q as int + 1));
                                    }
                                    q = q + 1;
                                }
                                proof {
                                    assert(yy as int * f.width as int * 4 == yy as int * (
                                    f.width as int * 4)) by (nonlinear_arith);
                                    assert(row_src + zero_bytes(pad4 as int) =~= frame_row(
                                        *f,
                                        atlas_w as int,
                                        yy as int,
                                    ));
                                    assert(image@ =~= image_prefix(slots, atlas_w as int, j)
                                        + frame_rows(*f, atlas_w as int, yy as int + 1));
                                }
                                yy = yy + 1;
                            }
                        } else {
                            proof {
                                assert(image@ =~= image_prefix(slots, atlas_w as int, j)
                                    + frame_rows(*f, atlas_w as int, f.height as int));
                            }
                        }
                        layout.push(
                            Some(
                                AtlasRect {
                                    x: 0,
                                    y: y_cursor,
                                    width: f.width,
                                    height: f.height,
                                },
                            ),
                        );
                        proof {
                            assert(image@ =~= image_prefix(slots, atlas_w as int, j + 1));
                        }
                        y_cursor = y_cursor + f.height;
                    },
                    None => {
                        layout.push(None);
                        proof {
                            assert(image@ =~= image_prefix(slots, atlas_w as int, j + 1));
                        }
                    },
                }
                proof {
                    j = j + 1;
                }
                k = k + 1;
            }
            i = i + 1;
        }
        proof {
            assert(j == slots.len());
            assert forall|j2: int|
                0 <= j2 < slots.len() && slots[j2] is Some implies frame_wf(
                #[trigger] slots[j2]->Some_0,
            ) && slots[j2]->Some_0.width <= atlas_w as int by {
                lemma_max_width_covers(slots, j2);
            }
            lemma_image_prefix_len(slots, atlas_w as int, slots.len() as int);
            assert(atlas_height(slots) * (atlas_width(slots) * 4) == atlas_width(slots)
                * atlas_height(slots) * 4) by (nonlinear_arith);
        }
        Ok(PackedAtlas { width: atlas_w, height: atlas_h, image, layout, ranges })
    }
}

// ---------------------------------------------------------------------------
// Law: the ranges of a successful build partition the atlas indices.
// ---------------------------------------------------------------------------

/// The lengths of all ranges, summed.
pub open spec fn sum_range_lengths(ranges: Seq<AtlasRangeEntry>, i: int) -> int
    decreases i,
{
    if i <= 0 {
        0
    } else {
        sum_range_lengths(ranges, i - 1) + (ranges[i - 1].last_index - ranges[i - 1].first_index
            + 1)
    }
}

/// Law: the range table of any successful build partitions the atlas
/// indices. For any folder list a build succeeds on, the ranges a built
/// atlas carries — fixed by [`ranges_match`], which
/// [`AtlasAssembler::build`] ensures of its result — start at zero, each
/// range starts right after the one before it, earlier ranges end strictly
/// before later ranges begin, and the range lengths sum to the full span:
/// `last_index` of the final range minus `first_index` of the first range
/// plus one.
pub proof fn lemma_ranges_partition(
    folders: Seq<(usize, LoadedFolder)>,
    ranges: Seq<AtlasRangeEntry>,
)
    requires
        build_succeeds(folders),
        ranges_match(ranges, folders),
    ensures
        ranges[0].first_index == 0,
        forall|i: int|
            0 <= i < ranges.len() - 1 ==> (#[trigger] ranges[i + 1]).first_index
                == ranges[i].last_index + 1,
        forall|i: int, i2: int|
            0 <= i < i2 < ranges.len() ==> (#[trigger] ranges[i]).last_index < (
            #[trigger] ranges[i2]).first_index,
        sum_range_lengths(ranges, ranges.len() as int) == ranges[ranges.len()
            - 1].last_index - ranges[0].first_index + 1,
{
    assert forall|i: int| 0 <= i < folders.len() implies folder_len(folders, i) >= 1 by {
        assert(folder_has_usable(folders[i].1));
    }
    assert forall|i: int, i2: int| 0 <= i < i2 < ranges.len() implies (
    #[trigger] ranges[i]).last_index < (#[trigger] ranges[i2]).first_index by {
        lemma_len_prefix_mono(folders, i + 1, i2);
    }
    lemma_sum_range_lengths_matches(folders, ranges, ranges.len() as int);
}

/// The range lengths of the first `i` folders sum to the slot count of
/// those folders.
proof fn lemma_sum_range_lengths_matches(
    folders: Seq<(usize, LoadedFolder)>,
    ranges: Seq<AtlasRangeEntry>,
    i: int,
)
    requires
        ranges.len() == folders.len(),
        0 <= i <= ranges.len(),
        forall|i2: int|
            0 <= i2 < ranges.len() ==> (#[trigger] ranges[i2]).first_index == len_prefix(
                folders,
                i2,
            ) && ranges[i2].last_index == len_prefix(folders, i2) + folder_len(folders, i2) - 1,
    ensures
        sum_range_lengths(ranges, i) == len_prefix(folders, i),
    decreases i,
{
    if i > 0 {
        lemma_sum_range_lengths_matches(folders, ranges, i - 1);
    }
}

} // verus!
