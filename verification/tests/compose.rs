use takeashot::compose::compose_fits;
use takeashot::compose::{
    align_row_bytes, align_up, composite_tiles, copy_region, plan_output, scale_region, swap_red_blue, unpad_rows,
    CopyGeometry, OutputGeometry, OutputTile, RenderedTile, ScaleGeometry,
};
use takeashot::geom::Rect;

#[test]
fn row_alignment_rounds_up() {
    assert_eq!(align_row_bytes(0), 0);
    assert_eq!(align_row_bytes(1), 256);
    assert_eq!(align_row_bytes(256), 256);
    assert_eq!(align_row_bytes(7680), 7680);
    assert_eq!(align_row_bytes(7684), 7936);
    assert_eq!(align_up(7684, 512), 8192);
    assert_eq!(align_up(10, 4), 12);
    assert_eq!(align_up(12, 4), 12);
}

#[test]
fn padded_rows_are_unpadded() {
    let data: Vec<u8> = (0..12).collect();
    assert_eq!(unpad_rows(&data, 5, 3, 2), vec![0, 1, 2, 5, 6, 7]);
    assert_eq!(unpad_rows(&data, 5, 3, 0), Vec::<u8>::new());
}

#[test]
fn copy_region_copies_rows() {
    // 3x2 source pixels, 1 byte per channel value = pixel index
    let src: Vec<u8> = (0..24).collect();
    let mut dst = vec![0u8; 4 * 4 * 2];
    let g = CopyGeometry { src_stride: 12, src_x: 1, src_y: 0, src_w: 2, src_h: 2, dst_stride: 16, dst_x: 2, dst_y: 0 };
    copy_region(&src, &mut dst, &g);
    let mut expected = vec![0u8; 32];
    expected[8..16].copy_from_slice(&src[4..12]);
    expected[24..32].copy_from_slice(&src[16..24]);
    assert_eq!(dst, expected);
}

#[test]
fn copy_region_skips_rows_that_do_not_fit() {
    let src: Vec<u8> = (0..8).collect();
    let mut dst = vec![9u8; 8];
    let g = CopyGeometry { src_stride: 4, src_x: 0, src_y: 0, src_w: 1, src_h: 3, dst_stride: 4, dst_x: 0, dst_y: 0 };
    copy_region(&src, &mut dst, &g);
    assert_eq!(dst, vec![0, 1, 2, 3, 4, 5, 6, 7]);
}

#[test]
fn scale_region_doubles_pixels() {
    // One logical pixel at scale 1 drawn at scale 2 becomes a 2x2 block.
    let src = vec![1u8, 2, 3, 4];
    let mut dst = vec![0u8; 16];
    let g = ScaleGeometry {
        copy: CopyGeometry { src_stride: 4, src_x: 0, src_y: 0, src_w: 1, src_h: 1, dst_stride: 8, dst_x: 0, dst_y: 0 },
        src_scale: 1,
        dst_scale: 2,
    };
    scale_region(&src, &mut dst, &g);
    assert_eq!(dst, vec![1, 2, 3, 4, 1, 2, 3, 4, 1, 2, 3, 4, 1, 2, 3, 4]);
}

#[test]
fn scale_region_reads_from_physical_origin() {
    // A 2x2 source at scale 2 read from physical row 1 into a scale-1 target:
    // the one target pixel is source pixel (0, 1).
    let src: Vec<u8> = (0..16).collect();
    let mut dst = vec![0u8; 4];
    let g = ScaleGeometry {
        copy: CopyGeometry { src_stride: 8, src_x: 0, src_y: 1, src_w: 2, src_h: 2, dst_stride: 4, dst_x: 0, dst_y: 0 },
        src_scale: 2,
        dst_scale: 1,
    };
    scale_region(&src, &mut dst, &g);
    assert_eq!(dst, vec![8, 9, 10, 11]);
}

#[test]
fn red_and_blue_swap() {
    let mut v = vec![1, 2, 3, 4, 5, 6, 7, 8];
    swap_red_blue(&mut v);
    assert_eq!(v, vec![3, 2, 1, 4, 7, 6, 5, 8]);
}

#[test]
fn outputs_are_planned_by_overlap() {
    let o = OutputGeometry { output_pos: (1920, 0), width: 1280, height: 720, scale_factor: 2 };
    let t = plan_output(Rect::new(1800, 100, 200, 100), &o).unwrap();
    assert_eq!(t.overlap, Rect::new(1920, 100, 80, 100));
    assert_eq!(t.scale, 2);
    assert_eq!(t.phys_size, (2560, 1440));
    assert!(plan_output(Rect::new(0, 0, 100, 100), &o).is_none());
    let flat = OutputGeometry { output_pos: (0, 0), width: 10, height: 10, scale_factor: 0 };
    assert_eq!(plan_output(Rect::new(0, 0, 5, 5), &flat).unwrap().scale, 1);
}

#[test]
fn composite_places_and_converts_tiles() {
    // Two 2x1 outputs side by side at scale 1; the selection spans both.
    let left = OutputTile { output_pos: (0, 0), logical_size: (2, 1), scale: 1, phys_size: (2, 1), overlap: Rect::new(1, 0, 1, 1) };
    let right = OutputTile { output_pos: (2, 0), logical_size: (2, 1), scale: 1, phys_size: (2, 1), overlap: Rect::new(2, 0, 1, 1) };
    let tiles = vec![
        RenderedTile { tile: left, pixels: vec![1, 2, 3, 4, 5, 6, 7, 8] },
        RenderedTile { tile: right, pixels: vec![9, 10, 11, 12, 13, 14, 15, 16] },
    ];
    let img = composite_tiles(&tiles, Rect::new(1, 0, 2, 1)).unwrap();
    assert_eq!((img.width, img.height), (2, 1));
    assert_eq!(img.data, vec![7, 6, 5, 8, 11, 10, 9, 12]);
}

#[test]
fn composite_upscales_lower_density_outputs() {
    // A scale-1 output next to a scale-2 output: the image is at scale 2.
    let low = OutputTile { output_pos: (0, 0), logical_size: (1, 1), scale: 1, phys_size: (1, 1), overlap: Rect::new(0, 0, 1, 1) };
    let high = OutputTile { output_pos: (1, 0), logical_size: (1, 1), scale: 2, phys_size: (2, 2), overlap: Rect::new(1, 0, 1, 1) };
    let tiles = vec![
        RenderedTile { tile: low, pixels: vec![1, 2, 3, 4] },
        RenderedTile { tile: high, pixels: vec![10, 0, 0, 0, 20, 0, 0, 0, 30, 0, 0, 0, 40, 0, 0, 0] },
    ];
    let img = composite_tiles(&tiles, Rect::new(0, 0, 2, 1)).unwrap();
    assert_eq!((img.width, img.height), (4, 2));
    let px = |x: usize, y: usize| img.data[(y * 4 + x) * 4..(y * 4 + x) * 4 + 4].to_vec();
    // The scale-1 pixel fills a 2x2 block (converted to RGBA).
    for (x, y) in [(0, 0), (1, 0), (0, 1), (1, 1)] {
        assert_eq!(px(x, y), vec![3, 2, 1, 4]);
    }
    assert_eq!(px(2, 0), vec![0, 0, 10, 0]);
    assert_eq!(px(3, 1), vec![0, 0, 40, 0]);
}

#[test]
fn compose_check() {
    let sel = Rect::new(0, 0, 2, 1);
    let tile = OutputTile { output_pos: (0, 0), logical_size: (2, 1), scale: 1, phys_size: (2, 1), overlap: Rect::new(0, 0, 2, 1) };
    let tiles = vec![RenderedTile { tile, pixels: vec![0; 8] }];
    assert!(compose_fits(&tiles, sel));
    assert!(compose_fits(&[], sel));
    let huge = Rect::new(0, 0, i32::MAX, i32::MAX);
    assert!(!compose_fits(&tiles, huge));
    let bad = OutputTile { scale: 0, ..tile };
    assert!(!compose_fits(&[RenderedTile { tile: bad, pixels: vec![] }], sel));
}

#[test]
fn composite_without_tiles_is_none() {
    assert!(composite_tiles(&[], Rect::new(0, 0, 10, 10)).is_none());
}

#[test]
fn composite_aligns_offset_overlaps_across_scales() {
    // A scale-2 output whose overlap starts one logical pixel in, next to a
    // scale-3 output; the image is at scale 3.
    let low = OutputTile { output_pos: (0, 0), logical_size: (2, 1), scale: 2, phys_size: (4, 2), overlap: Rect::new(1, 0, 1, 1) };
    let high = OutputTile { output_pos: (2, 0), logical_size: (1, 1), scale: 3, phys_size: (3, 3), overlap: Rect::new(2, 0, 1, 1) };
    let low_px: Vec<u8> = (0..8u8).flat_map(|i| [i + 1, 0, 0, 0]).collect();
    let high_px: Vec<u8> = (0..9u8).flat_map(|j| [100 + j, 0, 0, 0]).collect();
    let tiles = vec![RenderedTile { tile: low, pixels: low_px }, RenderedTile { tile: high, pixels: high_px }];
    let img = composite_tiles(&tiles, Rect::new(1, 0, 2, 1)).unwrap();
    assert_eq!((img.width, img.height), (6, 3));
    let px = |x: usize, y: usize| img.data[(y * 6 + x) * 4..(y * 6 + x) * 4 + 4].to_vec();
    // Logical pixel (1, 0) of the scale-2 output starts at physical column 2.
    for y in 0..3 {
        for x in 0..3 {
            assert_eq!(px(x, y), vec![0, 0, 3, 0]);
        }
    }
    for y in 0..3 {
        for x in 0..3 {
            assert_eq!(px(3 + x, y), vec![0, 0, 100 + (y * 3 + x) as u8, 0]);
        }
    }
}
