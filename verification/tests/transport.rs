use dx11_overlay::ui::mmf::{
    cleanup_shutdown, client_dimensions, is_blish_alive, probe_failed, set_mmf_dimensions,
    FrameHeader, HeaderError,
    MMFData,
    MutexProbe, Published, Teardown, Wait, WakeAction,
};
use dx11_overlay::ui::rendering::{CompositeEngine, OverlayState};
use dx11_overlay::ui::{check_dimensions, HEADER_SIZE, MAX_DIMENSION};

fn header_bytes(width: u32, height: u32, index: u32, addr1: u64, addr2: u64) -> Vec<u8> {
    let mut bytes = Vec::new();
    bytes.extend_from_slice(&width.to_le_bytes());
    bytes.extend_from_slice(&height.to_le_bytes());
    bytes.extend_from_slice(&index.to_le_bytes());
    bytes.extend_from_slice(&addr1.to_le_bytes());
    bytes.extend_from_slice(&addr2.to_le_bytes());
    bytes
}

#[test]
fn header_is_28_bytes() {
    assert_eq!(HEADER_SIZE, 28);
    assert_eq!(header_bytes(1, 1, 0, 0, 0).len(), HEADER_SIZE);
}

#[test]
fn header_fields_are_read_at_their_offsets() {
    let bytes = header_bytes(1920, 1080, 1, 0x1122_3344_5566_7788, 0xAABB_CCDD_EEFF_0011);
    let header = FrameHeader::parse(&bytes).unwrap();
    assert_eq!(
        header,
        FrameHeader {
            width: 1920,
            height: 1080,
            index: 1,
            addr1: 0x1122_3344_5566_7788,
            addr2: 0xAABB_CCDD_EEFF_0011,
        }
    );
}

#[test]
fn header_bytes_are_little_endian() {
    let mut bytes = vec![0u8; 28];
    bytes[0] = 0x01;
    bytes[1] = 0x02;
    bytes[4] = 0x10;
    bytes[5] = 0x27;
    bytes[12] = 0xFF;
    bytes[19] = 0x80;
    bytes[27] = 0x01;
    let header = FrameHeader::parse(&bytes).unwrap();
    assert_eq!(header.width, 0x0201);
    assert_eq!(header.height, 10000);
    assert_eq!(header.index, 0);
    assert_eq!(header.addr1, 0x8000_0000_0000_00FF);
    assert_eq!(header.addr2, 0x0100_0000_0000_0000);
}

#[test]
fn longer_header_image_is_read_from_its_start() {
    let mut bytes = header_bytes(800, 600, 0, 3, 4);
    bytes.extend_from_slice(&[0xEE; 12]);
    let header = FrameHeader::parse(&bytes).unwrap();
    assert_eq!((header.width, header.height, header.addr1, header.addr2), (800, 600, 3, 4));
}

#[test]
fn short_header_is_truncated() {
    let bytes = header_bytes(1920, 1080, 1, 1, 2);
    assert_eq!(FrameHeader::parse(&bytes[..27]), Err(HeaderError::Truncated));
    assert_eq!(FrameHeader::parse(&[]), Err(HeaderError::Truncated));
}

#[test]
fn zero_dimensions_are_rejected() {
    assert_eq!(
        FrameHeader::parse(&header_bytes(0, 1080, 0, 1, 2)),
        Err(HeaderError::ZeroDimension)
    );
    assert_eq!(
        FrameHeader::parse(&header_bytes(1920, 0, 0, 1, 2)),
        Err(HeaderError::ZeroDimension)
    );
    assert_eq!(FrameHeader::parse(&[0u8; 28]), Err(HeaderError::ZeroDimension));
}

#[test]
fn oversized_dimensions_are_rejected() {
    assert_eq!(
        FrameHeader::parse(&header_bytes(10001, 1080, 0, 1, 2)),
        Err(HeaderError::OversizedDimension)
    );
    assert_eq!(
        FrameHeader::parse(&header_bytes(1920, 10001, 0, 1, 2)),
        Err(HeaderError::OversizedDimension)
    );
    assert_eq!(
        FrameHeader::parse(&header_bytes(u32::MAX, u32::MAX, 0, 1, 2)),
        Err(HeaderError::OversizedDimension)
    );
    assert!(FrameHeader::parse(&header_bytes(10000, 10000, 0, 1, 2)).is_ok());
}

#[test]
fn zero_takes_precedence_over_oversized() {
    assert_eq!(
        FrameHeader::parse(&header_bytes(0, 20000, 0, 1, 2)),
        Err(HeaderError::ZeroDimension)
    );
}

#[test]
fn index_beyond_the_two_buffers_is_rejected() {
    assert_eq!(FrameHeader::parse(&header_bytes(640, 480, 2, 1, 2)), Err(HeaderError::BadIndex));
    assert!(FrameHeader::parse(&header_bytes(640, 480, 1, 1, 2)).is_ok());
}

#[test]
fn dimension_bounds() {
    assert_eq!(MAX_DIMENSION, 10000);
    assert!(check_dimensions(1, 1));
    assert!(check_dimensions(10000, 10000));
    assert!(!check_dimensions(0, 5));
    assert!(!check_dimensions(5, 0));
    assert!(!check_dimensions(10001, 5));
    assert!(!check_dimensions(5, 10001));
}

#[test]
fn dimensions_are_written_to_the_first_eight_bytes() {
    let mut header = header_bytes(1, 1, 1, 0x55, 0x66);
    assert!(set_mmf_dimensions(&mut header, 2560, 1440));
    assert_eq!(header, header_bytes(2560, 1440, 1, 0x55, 0x66));
    assert_eq!(&header[..8], &[0x00, 0x0A, 0, 0, 0xA0, 0x05, 0, 0]);
}

#[test]
fn dimensions_are_not_written_to_a_short_image() {
    let mut header = vec![9u8; 7];
    assert!(!set_mmf_dimensions(&mut header, 2560, 1440));
    assert_eq!(header, vec![9u8; 7]);
}

#[test]
fn liveness_follows_the_probe() {
    assert!(is_blish_alive(MutexProbe::Opened));
    assert!(!is_blish_alive(MutexProbe::Failed(2)));
    assert!(!is_blish_alive(MutexProbe::Failed(123)));
    assert!(is_blish_alive(MutexProbe::Failed(5)));
    assert!(is_blish_alive(MutexProbe::Failed(0)));
    assert!(is_blish_alive(MutexProbe::Failed(0x8007_0002)));
}

#[test]
fn fresh_cache_is_empty_and_not_ready() {
    let mmf = MMFData::new();
    assert_eq!(
        mmf,
        MMFData {
            mapped: false,
            width: 0,
            height: 0,
            index: 0,
            addr1: 0,
            addr2: 0,
            is_blish_alive: false
        }
    );
    assert!(!mmf.is_ready());
}

#[test]
fn wake_decisions() {
    let mut mmf = MMFData::new();
    assert_eq!(mmf.on_wake(false), WakeAction::OpenHeader);
    assert_eq!(mmf.on_wake(true), WakeAction::OpenHeader);
    mmf.mapped = true;
    assert_eq!(mmf.on_wake(true), WakeAction::ReadHeader);
    assert_eq!(mmf.on_wake(false), WakeAction::ReadHeader);
    mmf.is_blish_alive = true;
    assert_eq!(mmf.on_wake(true), WakeAction::ReadHeader);
    assert_eq!(mmf.on_wake(false), WakeAction::Cleanup);
    mmf.mapped = false;
    assert_eq!(mmf.on_wake(false), WakeAction::Cleanup);
}

#[test]
fn publishing_a_header_fills_the_cache() {
    let mut mmf = MMFData::new();
    let out = mmf.publish(true, true, &header_bytes(1920, 1080, 1, 0x10, 0x20));
    assert_eq!(out, Published { update_textures: true, send_dimensions: true });
    assert_eq!(
        mmf,
        MMFData {
            mapped: true,
            width: 1920,
            height: 1080,
            index: 1,
            addr1: 0x10,
            addr2: 0x20,
            is_blish_alive: true
        }
    );
    assert!(mmf.is_ready());
    let out = mmf.publish(true, false, &header_bytes(1920, 1080, 0, 0x10, 0x20));
    assert_eq!(out, Published { update_textures: false, send_dimensions: false });
    assert_eq!(mmf.index, 0);
    let out = mmf.publish(true, false, &header_bytes(1920, 1080, 0, 0x10, 0x21));
    assert_eq!(out, Published { update_textures: true, send_dimensions: false });
    let out = mmf.publish(true, false, &header_bytes(1920, 1080, 0, 0x11, 0x21));
    assert!(out.update_textures);
}

#[test]
fn malformed_headers_publish_nothing() {
    let cases = [
        header_bytes(0, 1080, 0, 1, 2),
        header_bytes(1920, 0, 0, 1, 2),
        header_bytes(10001, 1080, 0, 1, 2),
        header_bytes(1920, 10001, 0, 1, 2),
    ];
    for bytes in cases.iter() {
        let mut mmf = MMFData::new();
        mmf.publish(true, false, &header_bytes(1920, 1080, 1, 0x10, 0x20));
        assert!(mmf.is_ready());
        let out = mmf.publish(true, false, bytes);
        assert!(!out.update_textures);
        assert!(!mmf.is_ready());
        assert_eq!((mmf.width, mmf.height, mmf.addr1, mmf.addr2), (0, 0, 0, 0));
        assert!(mmf.mapped);
        assert!(mmf.is_blish_alive);
    }
}

#[test]
fn readiness_needs_life_dimensions_handles_and_index() {
    let ready = MMFData {
        mapped: true,
        width: 640,
        height: 480,
        index: 1,
        addr1: 1,
        addr2: 2,
        is_blish_alive: true,
    };
    assert!(ready.is_ready());
    assert!(!MMFData { is_blish_alive: false, ..ready }.is_ready());
    assert!(!MMFData { width: 0, ..ready }.is_ready());
    assert!(!MMFData { height: 0, ..ready }.is_ready());
    assert!(!MMFData { width: 10001, ..ready }.is_ready());
    assert!(!MMFData { height: 10001, ..ready }.is_ready());
    assert!(!MMFData { addr1: 0, ..ready }.is_ready());
    assert!(!MMFData { addr2: 0, ..ready }.is_ready());
    assert!(!MMFData { index: 2, ..ready }.is_ready());
    assert!(MMFData { mapped: false, ..ready }.is_ready());
}

#[test]
fn waits_are_bounded() {
    let mut mmf = MMFData::new();
    assert_eq!(mmf.next_wait(false), Wait::Sleep { millis: 100 });
    assert_eq!(mmf.next_wait(true), Wait::Signal { timeout_millis: 1000 });
    mmf.mapped = true;
    assert_eq!(mmf.next_wait(true), Wait::Signal { timeout_millis: 100 });
    assert_eq!(mmf.next_wait(false), Wait::Sleep { millis: 100 });
}

#[test]
fn dead_producer_clears_cache_and_resources() {
    let mut mmf = MMFData::new();
    mmf.publish(true, true, &header_bytes(1920, 1080, 1, 0x10, 0x20));
    let mut engine = CompositeEngine::new();
    engine.state = Some(OverlayState {
        width: 1920,
        height: 1080,
        addr1: 0x10,
        addr2: 0x20,
        target_width: 1920,
        target_height: 1080,
    });

    let alive = is_blish_alive(MutexProbe::Failed(2));
    assert!(!alive);
    assert_eq!(mmf.on_wake(alive), WakeAction::Cleanup);
    let todo = cleanup_shutdown(&mut mmf, &mut engine);
    assert_eq!(todo, Teardown { unmap: true });
    assert_eq!(mmf, MMFData::new());
    assert_eq!((mmf.width, mmf.height), (0, 0));
    assert_eq!(engine.state, Some(OverlayState::new()));

    // The producer stays dead: nothing is left to clean up, the header is looked for again.
    assert_eq!(mmf.on_wake(false), WakeAction::OpenHeader);
    let todo = cleanup_shutdown(&mut mmf, &mut engine);
    assert_eq!(todo, Teardown { unmap: false });
}

#[test]
fn wrapped_system_errors_are_unwrapped() {
    assert_eq!(probe_failed(0x8007_0002u32 as i32), MutexProbe::Failed(2));
    assert_eq!(probe_failed(0x8007_007Bu32 as i32), MutexProbe::Failed(123));
    assert_eq!(probe_failed(0x8007_0005u32 as i32), MutexProbe::Failed(5));
    assert_eq!(probe_failed(0x8007_FFFFu32 as i32), MutexProbe::Failed(0xFFFF));
    assert_eq!(probe_failed(0x8000_4005u32 as i32), MutexProbe::Failed(0x8000_4005));
    assert_eq!(probe_failed(0x0007_0002), MutexProbe::Failed(0x0007_0002));
    assert_eq!(probe_failed(2), MutexProbe::Failed(2));
    assert_eq!(probe_failed(-1), MutexProbe::Failed(u32::MAX));
    assert_eq!(probe_failed(i32::MIN), MutexProbe::Failed(0x8000_0000));
    assert!(!is_blish_alive(probe_failed(0x8007_0002u32 as i32)));
    assert!(!is_blish_alive(probe_failed(0x8007_007Bu32 as i32)));
    assert!(is_blish_alive(probe_failed(0x8007_0005u32 as i32)));
    assert!(is_blish_alive(probe_failed(0x8000_4005u32 as i32)));
}

#[test]
fn names_of_the_shared_objects() {
    assert_eq!(dx11_overlay::ui::HEADER_NAME, "BlishHUD_Header");
    assert_eq!(dx11_overlay::ui::WAKE_EVENT_NAME, "Global\\BlishHUD_WakeEvent");
    assert_eq!(dx11_overlay::ui::RESIZE_EVENT_NAME, "Global\\BlishHUD_ResizeEvent");
    assert_eq!(dx11_overlay::ui::LIVENESS_MUTEX_NAME, "Global\\blish_isalive_mutex");
}

#[test]
fn client_area_gives_the_dimensions_to_announce() {
    assert_eq!(client_dimensions(0, 0, 1920, 1080), (1920, 1080));
    assert_eq!(client_dimensions(10, 20, 110, 70), (100, 50));
    assert_eq!(client_dimensions(-5, -5, 5, 5), (10, 10));
    assert_eq!(client_dimensions(0, 0, 0, 0), (0, 0));
    assert_eq!(client_dimensions(5, 5, 1, 9), (0, 4));
    assert_eq!(client_dimensions(i32::MIN, i32::MIN, i32::MAX, i32::MAX), (u32::MAX, u32::MAX));
}
