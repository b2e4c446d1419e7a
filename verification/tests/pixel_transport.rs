use dx11_overlay::ui::frame::{DirtyRect, FrameBuffer};
use dx11_overlay::ui::pixels::{poll_frame, Polled, PIXEL_HEADER_SIZE};

fn header(width: u32, height: u32, ready: u32, consumed: u32) -> Vec<u8> {
    let mut bytes = Vec::new();
    for field in [width, height, ready, consumed] {
        bytes.extend_from_slice(&field.to_le_bytes());
    }
    bytes
}

/// What a producer writes: every byte tells its frame, its pixel and its channel.
fn produce(width: u32, height: u32, frame_number: u8) -> Vec<u8> {
    let mut body = Vec::new();
    for p in 0..width * height {
        for c in 0..4u32 {
            body.push(frame_number.wrapping_mul(31).wrapping_add((p * 4 + c) as u8));
        }
    }
    body
}

#[test]
fn published_frame_is_read_back_byte_for_byte() {
    assert_eq!(PIXEL_HEADER_SIZE, 16);
    let mut cache = FrameBuffer::new();
    let body = produce(9, 4, 1);
    let mut shared = header(9, 4, 1, 0);
    let polled = poll_frame(&mut cache, &mut shared, &body, None);
    assert_eq!(polled, Polled::Copied { resized: true });
    assert_eq!((cache.width, cache.height), (9, 4));
    assert_eq!(cache.pixels, body);
    assert_eq!(shared, header(9, 4, 0, 1));
}

#[test]
fn frame_is_consumed_only_once() {
    let mut cache = FrameBuffer::new();
    let body = produce(3, 3, 1);
    let mut shared = header(3, 3, 1, 0);
    assert_eq!(poll_frame(&mut cache, &mut shared, &body, None), Polled::Copied { resized: true });
    // The producer has not published again: its next frame is still being written.
    let half_written = produce(3, 3, 2);
    assert_eq!(poll_frame(&mut cache, &mut shared, &half_written, None), Polled::NotReady);
    assert_eq!(cache.pixels, body);
    assert_eq!(shared, header(3, 3, 0, 1));
    // Now it has.
    shared[8] = 1;
    shared[12] = 0;
    assert_eq!(
        poll_frame(&mut cache, &mut shared, &half_written, None),
        Polled::Copied { resized: false }
    );
    assert_eq!(cache.pixels, half_written);
    assert_eq!(shared, header(3, 3, 0, 1));
}

#[test]
fn dirty_rectangles_update_only_their_pixels() {
    let mut cache = FrameBuffer::new();
    let first = produce(6, 5, 1);
    let second = produce(6, 5, 2);
    let mut shared = header(6, 5, 1, 0);
    poll_frame(&mut cache, &mut shared, &first, None);
    let mut shared = header(6, 5, 7, 1);
    let rects = [DirtyRect { x: 0, y: 0, w: 2, h: 2 }, DirtyRect { x: 4, y: 3, w: 2, h: 2 }];
    let polled = poll_frame(&mut cache, &mut shared, &second, Some(&rects));
    assert_eq!(polled, Polled::Copied { resized: false });
    for y in 0..5u32 {
        for x in 0..6u32 {
            let k = ((y * 6 + x) * 4) as usize;
            let dirty = x < 2 && y < 2 || x >= 4 && y >= 3;
            let expected = if dirty { &second[k..k + 4] } else { &first[k..k + 4] };
            assert_eq!(&cache.pixels[k..k + 4], expected);
        }
    }
    assert_eq!(shared, header(6, 5, 0, 1));
}

#[test]
fn new_resolution_is_copied_whole_whatever_the_rectangles_say() {
    let mut cache = FrameBuffer::new();
    let mut shared = header(6, 5, 1, 0);
    poll_frame(&mut cache, &mut shared, &produce(6, 5, 1), None);
    let bigger = produce(8, 7, 2);
    let mut shared = header(8, 7, 1, 0);
    let rects = [DirtyRect { x: 0, y: 0, w: 1, h: 1 }];
    let polled = poll_frame(&mut cache, &mut shared, &bigger, Some(&rects));
    assert_eq!(polled, Polled::Copied { resized: true });
    assert_eq!((cache.width, cache.height), (8, 7));
    assert_eq!(cache.pixels.len(), 8 * 7 * 4);
    assert_eq!(cache.pixels, bigger);
}

#[test]
fn malformed_headers_are_not_acted_upon() {
    let body = produce(4, 4, 3);
    let mut cache = FrameBuffer::new();
    let mut shared = header(4, 4, 1, 0);
    poll_frame(&mut cache, &mut shared, &body, None);
    let other = produce(4, 4, 9);
    for bad in [
        header(0, 4, 1, 0),
        header(4, 0, 1, 0),
        header(10001, 4, 1, 0),
        header(4, 10001, 1, 0),
        header(4, 4, 0, 0),
        header(5, 4, 1, 0),
        header(4, 4, 1, 0)[..15].to_vec(),
        Vec::new(),
    ] {
        let mut shared = bad.clone();
        assert_eq!(poll_frame(&mut cache, &mut shared, &other, None), Polled::NotReady);
        assert_eq!(shared, bad);
        assert_eq!((cache.width, cache.height), (4, 4));
        assert_eq!(cache.pixels, body);
    }
}

#[test]
fn bytes_around_the_flags_are_left_alone() {
    let mut cache = FrameBuffer::new();
    let mut shared = header(2, 2, 0xFFFF_FFFF, 0xABCD_EF01);
    shared.extend_from_slice(&[0x77; 5]);
    let body = produce(2, 2, 1);
    assert_eq!(poll_frame(&mut cache, &mut shared, &body, None), Polled::Copied { resized: true });
    let mut expected = header(2, 2, 0, 1);
    expected.extend_from_slice(&[0x77; 5]);
    assert_eq!(shared, expected);
}
