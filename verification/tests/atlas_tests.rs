use sprite_atlas::atlas::AssemblyError;
use sprite_atlas::atlas::AtlasAssembler;
use sprite_atlas::atlas::AtlasRect;
use sprite_atlas::atlas::FrameImage;
use sprite_atlas::atlas::LoadedFolder;

fn solid_frame(width: usize, height: usize, value: u8) -> FrameImage {
    FrameImage { width, height, pixels: vec![value; width * height * 4] }
}

fn frame_with_pixels(width: usize, height: usize, pixels: Vec<u8>) -> FrameImage {
    assert_eq!(pixels.len(), width * height * 4);
    FrameImage { width, height, pixels }
}

#[test]
fn empty_folder_list_is_rejected() {
    let folders: Vec<(usize, LoadedFolder)> = Vec::new();
    let r = AtlasAssembler::build(&folders);
    assert_eq!(r.unwrap_err(), AssemblyError::EmptyInput);
}

#[test]
fn folder_with_no_usable_frame_names_itself() {
    let folders = vec![
        (4usize, LoadedFolder { frames: vec![Some(solid_frame(1, 1, 7))] }),
        (5usize, LoadedFolder { frames: vec![None, None] }),
        (6usize, LoadedFolder { frames: vec![None] }),
    ];
    let r = AtlasAssembler::build(&folders);
    // The first offending folder, in folder order, is the one reported.
    assert_eq!(r.unwrap_err(), AssemblyError::NoFramesOfType { folder_id: 5 });
}

#[test]
fn folder_with_no_frames_at_all_is_unusable() {
    let folders = vec![
        (0usize, LoadedFolder { frames: vec![Some(solid_frame(1, 1, 7))] }),
        (1usize, LoadedFolder { frames: Vec::new() }),
    ];
    let r = AtlasAssembler::build(&folders);
    assert_eq!(r.unwrap_err(), AssemblyError::NoFramesOfType { folder_id: 1 });
}

#[test]
fn ranges_concatenate_folder_lengths_in_order() {
    let folders = vec![
        (0usize, LoadedFolder { frames: vec![Some(solid_frame(1, 1, 1)), Some(solid_frame(1, 1, 2))] }),
        (1usize, LoadedFolder {
            frames: vec![
                Some(solid_frame(1, 1, 3)),
                Some(solid_frame(1, 1, 4)),
                Some(solid_frame(1, 1, 5)),
            ],
        }),
    ];
    let atlas = AtlasAssembler::build(&folders).unwrap();
    assert_eq!(atlas.ranges.len(), 2);
    assert_eq!(atlas.ranges[0].folder_id, 0);
    assert_eq!(atlas.ranges[0].first_index, 0);
    assert_eq!(atlas.ranges[0].last_index, 1);
    assert_eq!(atlas.ranges[1].folder_id, 1);
    assert_eq!(atlas.ranges[1].first_index, 2);
    assert_eq!(atlas.ranges[1].last_index, 4);

    // The per-folder lengths sum to the full combined span, contiguously
    // and without overlap.
    let total: usize = atlas
        .ranges
        .iter()
        .map(|e| e.last_index - e.first_index + 1)
        .sum();
    let span = atlas.ranges[1].last_index - atlas.ranges[0].first_index + 1;
    assert_eq!(total, span);
    assert_eq!(atlas.ranges[1].first_index, atlas.ranges[0].last_index + 1);
}

#[test]
fn packs_a_vertical_strip_with_padding() {
    // Frame a: 2x1, bytes 1..=8. Frame b: 1x2, bytes 9..=16.
    let a = frame_with_pixels(2, 1, vec![1, 2, 3, 4, 5, 6, 7, 8]);
    let b = frame_with_pixels(1, 2, vec![9, 10, 11, 12, 13, 14, 15, 16]);
    let folders = vec![
        (7usize, LoadedFolder { frames: vec![Some(a)] }),
        (9usize, LoadedFolder { frames: vec![Some(b)] }),
    ];
    let atlas = AtlasAssembler::build(&folders).unwrap();

    assert_eq!(atlas.width, 2);
    assert_eq!(atlas.height, 3);
    assert_eq!(atlas.image.len(), 2 * 3 * 4);
    assert_eq!(
        atlas.image,
        vec![
            1, 2, 3, 4, 5, 6, 7, 8, // frame a, row 0
            9, 10, 11, 12, 0, 0, 0, 0, // frame b, row 0, right-padded
            13, 14, 15, 16, 0, 0, 0, 0, // frame b, row 1, right-padded
        ]
    );

    assert_eq!(atlas.layout.len(), 2);
    assert_eq!(atlas.layout[0], Some(AtlasRect { x: 0, y: 0, width: 2, height: 1 }));
    assert_eq!(atlas.layout[1], Some(AtlasRect { x: 0, y: 1, width: 1, height: 2 }));

    assert_eq!(atlas.ranges[0].folder_id, 7);
    assert_eq!(atlas.ranges[1].folder_id, 9);
}

#[test]
fn unresolved_frame_keeps_its_slot() {
    // The middle frame of the folder never resolved: its index stays
    // reserved, its layout entry is empty, and it adds no bytes.
    let a = frame_with_pixels(1, 1, vec![1, 2, 3, 4]);
    let c = frame_with_pixels(1, 1, vec![5, 6, 7, 8]);
    let folders = vec![(3usize, LoadedFolder { frames: vec![Some(a), None, Some(c)] })];
    let atlas = AtlasAssembler::build(&folders).unwrap();

    assert_eq!(atlas.ranges.len(), 1);
    assert_eq!(atlas.ranges[0].first_index, 0);
    assert_eq!(atlas.ranges[0].last_index, 2);

    assert_eq!(atlas.layout.len(), 3);
    assert_eq!(atlas.layout[0], Some(AtlasRect { x: 0, y: 0, width: 1, height: 1 }));
    assert_eq!(atlas.layout[1], None);
    assert_eq!(atlas.layout[2], Some(AtlasRect { x: 0, y: 1, width: 1, height: 1 }));

    assert_eq!(atlas.width, 1);
    assert_eq!(atlas.height, 2);
    assert_eq!(atlas.image, vec![1, 2, 3, 4, 5, 6, 7, 8]);
}

#[test]
fn three_folders_partition_the_indices() {
    let folders = vec![
        (0usize, LoadedFolder { frames: vec![Some(solid_frame(1, 1, 1))] }),
        (1usize, LoadedFolder {
            frames: vec![Some(solid_frame(1, 1, 2)), Some(solid_frame(1, 1, 3))],
        }),
        (2usize, LoadedFolder {
            frames: vec![
                Some(solid_frame(1, 1, 4)),
                Some(solid_frame(1, 1, 5)),
                Some(solid_frame(1, 1, 6)),
                Some(solid_frame(1, 1, 7)),
            ],
        }),
    ];
    let atlas = AtlasAssembler::build(&folders).unwrap();
    let firsts: Vec<usize> = atlas.ranges.iter().map(|e| e.first_index).collect();
    let lasts: Vec<usize> = atlas.ranges.iter().map(|e| e.last_index).collect();
    assert_eq!(firsts, vec![0, 1, 3]);
    assert_eq!(lasts, vec![0, 2, 6]);
    for w in atlas.ranges.windows(2) {
        assert_eq!(w[1].first_index, w[0].last_index + 1);
        assert!(w[0].last_index < w[1].first_index);
    }
}
