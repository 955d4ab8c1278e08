use lenia_engine::error::ConfigurationError;
use lenia_engine::grid::{is_aligned, tiles, ChannelFormat, GridBuffer, GridExtent, TILE};

#[test]
fn tile_is_eight_cells_wide() {
    assert_eq!(TILE, 8);
}

#[test]
fn tiles_round_up() {
    assert_eq!(tiles(0), 0);
    assert_eq!(tiles(1), 1);
    assert_eq!(tiles(7), 1);
    assert_eq!(tiles(8), 1);
    assert_eq!(tiles(9), 2);
    assert_eq!(tiles(64), 8);
    assert_eq!(tiles(65), 9);
    assert_eq!(tiles(600), 75);
    assert_eq!(tiles(400), 50);
    assert_eq!(tiles(u32::MAX), 536_870_912);
}

#[test]
fn aligned_lengths_are_positive_multiples_of_the_tile() {
    assert!(!is_aligned(0));
    assert!(!is_aligned(1));
    assert!(!is_aligned(7));
    assert!(is_aligned(8));
    assert!(!is_aligned(12));
    assert!(is_aligned(64));
    assert!(!is_aligned(65));
    assert!(is_aligned(600));
    assert!(is_aligned(4_294_967_288));
    assert!(!is_aligned(u32::MAX));
}

#[test]
fn channel_formats_have_their_layout() {
    assert_eq!(ChannelFormat::Rgba8Unorm.channels(), 4);
    assert_eq!(ChannelFormat::R32Float.channels(), 1);
    assert_eq!(ChannelFormat::Rgba8Unorm.cell_bytes(), 4);
    assert_eq!(ChannelFormat::R32Float.cell_bytes(), 4);
}

#[test]
fn buffers_start_black_or_zero() {
    assert_eq!(ChannelFormat::Rgba8Unorm.initial_cell(), [0, 0, 0, 255]);
    assert_eq!(ChannelFormat::R32Float.initial_cell(), [0, 0, 0, 0]);
    assert_eq!(f32::from_le_bytes(ChannelFormat::R32Float.initial_cell()), 0.0);
}

#[test]
fn buffer_keeps_what_it_was_declared_with() {
    let buffer = GridBuffer::new(600, 400, ChannelFormat::R32Float, 3).unwrap();
    assert_eq!(buffer.width(), 600);
    assert_eq!(buffer.height(), 400);
    assert_eq!(buffer.format(), ChannelFormat::R32Float);
    assert_eq!(buffer.slot(), 3);
    assert_eq!(buffer.extent(), GridExtent { groups_x: 75, groups_y: 50 });
    assert_eq!(buffer.cell_count(), 240_000);
}

#[test]
fn largest_buffer_counts_its_cells_without_overflow() {
    let side: u32 = 4_294_967_288;
    let buffer = GridBuffer::new(side, side, ChannelFormat::Rgba8Unorm, 0).unwrap();
    assert_eq!(buffer.cell_count(), 18_446_744_004_990_074_944);
    assert_eq!(buffer.extent(), GridExtent { groups_x: 536_870_911, groups_y: 536_870_911 });
}

#[test]
fn buffer_refuses_misaligned_width() {
    let r = GridBuffer::new(65, 64, ChannelFormat::Rgba8Unorm, 0);
    assert_eq!(r, Err(ConfigurationError::MisalignedGrid { width: 65, height: 64 }));
}

#[test]
fn buffer_refuses_misaligned_height() {
    let r = GridBuffer::new(64, 4, ChannelFormat::Rgba8Unorm, 0);
    assert_eq!(r, Err(ConfigurationError::MisalignedGrid { width: 64, height: 4 }));
}

#[test]
fn buffer_refuses_empty_grid() {
    let r = GridBuffer::new(0, 64, ChannelFormat::Rgba8Unorm, 0);
    assert_eq!(r, Err(ConfigurationError::MisalignedGrid { width: 0, height: 64 }));
    let r = GridBuffer::new(64, 0, ChannelFormat::Rgba8Unorm, 0);
    assert_eq!(r, Err(ConfigurationError::MisalignedGrid { width: 64, height: 0 }));
}

#[test]
fn workgroups_of_a_dispatch_cover_the_grid_exactly() {
    let buffer = GridBuffer::new(600, 400, ChannelFormat::Rgba8Unorm, 0).unwrap();
    let extent = buffer.extent();
    assert_eq!(extent.workgroups(), 3_750);
    assert_eq!(extent.workgroups() * 64, buffer.cell_count());
    let widest = GridExtent { groups_x: u32::MAX, groups_y: u32::MAX };
    assert_eq!(widest.workgroups(), 18_446_744_065_119_617_025);
}
