use takeashot::capture::{first_capture_step, next_capture_step, whole_workspace, CaptureStep};
use takeashot::capture::crop_fits;
use takeashot::capture::{
    bgra_to_rgba, crop_workspace_to_output, find_captured, find_captured_or_first, CapturedScreen,
    ConvertError, CropError, OutputCaptureInfo,
};
use takeashot::kwin::screenshot::{
    extract_u32, parse_metadata, CaptureMetadata, MetadataError, MetadataField, MetadataValue,
};

fn info(name: &str, x: i32, y: i32, w: i32, h: i32, scale: i32) -> OutputCaptureInfo {
    OutputCaptureInfo { name: name.to_string(), logical_x: x, logical_y: y, logical_w: w, logical_h: h, scale_factor: scale }
}

/// A 4x3 workspace whose pixel (x, y) holds the bytes [x, y, 10 + x, 20 + y],
/// with 4 bytes of row padding.
fn workspace() -> (Vec<u8>, CaptureMetadata) {
    let stride = 4 * 4 + 4;
    let mut data = vec![0u8; stride * 3];
    for y in 0..3 {
        for x in 0..4 {
            let o = y * stride + x * 4;
            data[o..o + 4].copy_from_slice(&[x as u8, y as u8, 10 + x as u8, 20 + y as u8]);
        }
    }
    (data, CaptureMetadata { width: 4, height: 3, stride: stride as u32, format: 5 })
}

#[test]
fn crop_takes_the_output_region() {
    let (data, meta) = workspace();
    let c = crop_workspace_to_output(&data, &meta, &info("B", 1, 1, 2, 2, 1)).unwrap();
    assert_eq!(c.name, "B");
    assert_eq!((c.width, c.height, c.stride), (2, 2, 8));
    assert_eq!(c.bgra, vec![1, 1, 11, 21, 2, 1, 12, 21, 1, 2, 11, 22, 2, 2, 12, 22]);
}

#[test]
fn crop_scales_logical_geometry() {
    let (data, meta) = workspace();
    // Logical (1, 0) 1x1 at scale 2 is the physical 2x2 block at (2, 0).
    let c = crop_workspace_to_output(&data, &meta, &info("S", 1, 0, 1, 1, 2)).unwrap();
    assert_eq!((c.width, c.height, c.stride), (2, 2, 8));
    assert_eq!(c.bgra, vec![2, 0, 12, 20, 3, 0, 13, 20, 2, 1, 12, 21, 3, 1, 13, 21]);
    // A scale below one counts as one.
    let c = crop_workspace_to_output(&data, &meta, &info("Z", 3, 2, 1, 1, 0)).unwrap();
    assert_eq!(c.bgra, vec![3, 2, 13, 22]);
}

#[test]
fn crop_outside_workspace_is_an_error() {
    let (data, meta) = workspace();
    let e = crop_workspace_to_output(&data, &meta, &info("X", 3, 0, 2, 1, 1)).unwrap_err();
    assert_eq!(
        e,
        CropError::ExceedsWorkspace { name: "X".to_string(), x: 3, y: 0, w: 2, h: 1, workspace_w: 4, workspace_h: 3 }
    );
    // A negative position reads as a huge unsigned one.
    assert!(matches!(
        crop_workspace_to_output(&data, &meta, &info("N", -1, 0, 1, 1, 1)),
        Err(CropError::ExceedsWorkspace { .. })
    ));
}

#[test]
fn crop_of_truncated_data_is_an_error() {
    let (mut data, meta) = workspace();
    data.truncate(20 + 20 + 8); // row 2 ends after 2 pixels
    let e = crop_workspace_to_output(&data, &meta, &info("T", 1, 1, 2, 2, 1)).unwrap_err();
    assert_eq!(e, CropError::Truncated { row: 2 });
}

#[test]
fn bgra_rows_become_packed_rgba() {
    let cap = CapturedScreen {
        name: "s".to_string(),
        bgra: vec![1, 2, 3, 4, 5, 6, 7, 8, 99, 9, 10, 11, 12, 13, 14, 15, 16, 99],
        width: 2,
        height: 2,
        stride: 9,
    };
    let img = bgra_to_rgba(&cap).unwrap();
    assert_eq!((img.width, img.height), (2, 2));
    assert_eq!(img.data, vec![3, 2, 1, 4, 7, 6, 5, 8, 11, 10, 9, 12, 15, 14, 13, 16]);
}

#[test]
fn bgra_conversion_errors() {
    let short_stride = CapturedScreen { name: String::new(), bgra: vec![0; 64], width: 4, height: 2, stride: 15 };
    assert_eq!(bgra_to_rgba(&short_stride).err(), Some(ConvertError::StrideTooSmall { stride: 15, width: 4 }));
    let truncated = CapturedScreen { name: String::new(), bgra: vec![0; 20], width: 2, height: 3, stride: 8 };
    assert_eq!(bgra_to_rgba(&truncated).err(), Some(ConvertError::Truncated { row: 2 }));
}

#[test]
fn metadata_is_read_in_field_order() {
    let m = parse_metadata(
        &Some(MetadataValue::U32(1920)),
        &Some(MetadataValue::I64(1080)),
        &Some(MetadataValue::U64(7680)),
        &Some(MetadataValue::U32(5)),
    )
    .unwrap();
    assert_eq!(m, CaptureMetadata { width: 1920, height: 1080, stride: 7680, format: 5 });
    assert_eq!(
        parse_metadata(&None, &None, &Some(MetadataValue::U32(1)), &Some(MetadataValue::U32(1))),
        Err(MetadataError::Missing(MetadataField::Width))
    );
    assert_eq!(
        parse_metadata(
            &Some(MetadataValue::U32(1)),
            &Some(MetadataValue::Other("s".to_string())),
            &None,
            &None
        ),
        Err(MetadataError::UnexpectedType("s".to_string()))
    );
    assert_eq!(
        parse_metadata(&Some(MetadataValue::U32(1)), &Some(MetadataValue::U32(1)), &Some(MetadataValue::U32(1)), &None),
        Err(MetadataError::Missing(MetadataField::Format))
    );
}

#[test]
fn wide_integers_truncate_to_u32() {
    assert_eq!(extract_u32(&MetadataValue::I64(-1)), Ok(u32::MAX));
    assert_eq!(extract_u32(&MetadataValue::U64(0x1_0000_0002)), Ok(2));
}

#[test]
fn captured_screens_are_found_by_name() {
    let s = |n: &str, w: u32| CapturedScreen { name: n.to_string(), bgra: Vec::new(), width: w, height: 1, stride: 4 };
    let caps = vec![s("A", 1), s("B", 2), s("B", 3)];
    assert_eq!(find_captured(&caps, &Some("B".to_string())).map(|c| c.width), Some(2));
    assert!(find_captured(&caps, &Some("C".to_string())).is_none());
    assert_eq!(find_captured(&caps, &None).map(|c| c.width), Some(1));
    assert_eq!(find_captured_or_first(&caps, &Some("C".to_string())).map(|c| c.width), Some(1));
    assert_eq!(find_captured_or_first(&caps, &Some("B".to_string())).map(|c| c.width), Some(2));
    assert!(find_captured_or_first(&[], &None).is_none());
}

#[test]
fn crop_check() {
    let (_, meta) = workspace();
    assert!(crop_fits(&meta, &info("A", 0, 0, 2, 2, 1)));
    let big = CaptureMetadata { width: u32::MAX, height: 10, stride: 0, format: 0 };
    assert!(!crop_fits(&big, &info("A", 0, 0, i32::MAX, 1, 1)));
    // A region outside the workspace is reported by the crop itself.
    assert!(crop_fits(&meta, &info("A", 0, 0, i32::MAX, 1, 1)));
}

#[test]
fn capture_steps() {
    assert_eq!(first_capture_step(false, 2), CaptureStep::Screen(0));
    assert_eq!(first_capture_step(true, 2), CaptureStep::Workspace);
    assert_eq!(first_capture_step(false, 0), CaptureStep::Workspace);
    assert_eq!(next_capture_step(0, true, 2), CaptureStep::Screen(1));
    assert_eq!(next_capture_step(1, true, 2), CaptureStep::Done);
    assert_eq!(next_capture_step(0, false, 2), CaptureStep::Workspace);
    let (data, meta) = workspace();
    let w = whole_workspace(data.clone(), &meta);
    assert_eq!(w.name, "workspace");
    assert_eq!((w.width, w.height, w.stride), (4, 3, 20));
    assert_eq!(w.bgra, data);
}
