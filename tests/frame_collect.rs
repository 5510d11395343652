use raytracer::collect::{CollectError, PixelCollector};
use raytracer::frame::ImageSize;

#[test]
fn image_size_rejects_empty_and_oversized_frames() {
    assert!(ImageSize::new(0, 10).is_none());
    assert!(ImageSize::new(10, 0).is_none());
    assert!(ImageSize::new(65536, 65536).is_none());
    let s = ImageSize::new(65535, 65537).unwrap();
    assert_eq!(s.pixel_count(), 4294967295);
}

#[test]
fn image_size_from_aspect_rounds_height_down() {
    let s = ImageSize::from_aspect(1600, 4, 3).unwrap();
    assert_eq!(s.width(), 1600);
    assert_eq!(s.height(), 1200);
    let t = ImageSize::from_aspect(20, 16, 9).unwrap();
    assert_eq!(t.height(), 11);
    assert!(ImageSize::from_aspect(20, 0, 3).is_none());
    assert!(ImageSize::from_aspect(1, 4, 3).is_none());
}

#[test]
fn pixel_offset_puts_top_row_first() {
    let s = ImageSize::new(4, 3).unwrap();
    assert_eq!(s.pixel_count(), 12);
    // Row 0 is the bottom of the image and the last row of the buffer.
    assert_eq!(s.pixel_offset(0, 0), 8);
    assert_eq!(s.pixel_offset(3, 0), 11);
    assert_eq!(s.pixel_offset(0, 2), 0);
    assert_eq!(s.pixel_offset(2, 1), 6);
}

#[test]
fn collector_completes_after_every_pixel_in_any_order() {
    let size = ImageSize::new(3, 2).unwrap();
    let mut c = PixelCollector::new(size);
    assert_eq!(c.received(), 0);
    assert!(!c.is_complete());
    let order = [(2, 0), (0, 1), (1, 1), (0, 0), (2, 1), (1, 0)];
    for (k, &(x, y)) in order.iter().enumerate() {
        assert!(!c.is_written(x, y));
        let off = c.receive(x, y).unwrap();
        assert_eq!(off, size.pixel_offset(x, y));
        assert!(c.is_written(x, y));
        assert_eq!(c.received(), k as u32 + 1);
        assert_eq!(c.is_complete(), k == order.len() - 1);
    }
    assert!(c.is_complete());
}

#[test]
fn collector_refuses_duplicates_and_outside_pixels() {
    let size = ImageSize::new(3, 2).unwrap();
    let mut c = PixelCollector::new(size);
    assert_eq!(c.receive(1, 1), Ok(1));
    assert_eq!(c.receive(1, 1), Err(CollectError::AlreadyWritten));
    assert_eq!(c.receive(3, 0), Err(CollectError::OutsideFrame));
    assert_eq!(c.receive(0, 2), Err(CollectError::OutsideFrame));
    assert_eq!(c.received(), 1);
    assert!(!c.is_complete());
}

#[test]
fn collector_single_pixel_frame() {
    let mut c = PixelCollector::new(ImageSize::new(1, 1).unwrap());
    assert!(!c.is_complete());
    assert_eq!(c.receive(0, 0), Ok(0));
    assert!(c.is_complete());
}
