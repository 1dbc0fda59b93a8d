use tauri_runtime_cef::argb_surface::{
    allocate_buffer, buffer_len, damage, shm_request, AllocationAction, AllocationProgress,
    ArgbBuffer, ArgbSurface, BufferEvent, Damage, PresentAction, PresentEvent, ShmFormat,
    ShmRequest,
};
use tauri_runtime_cef::osr::{OsrFrame, PaintElementType};

fn ask(surface: &mut ArgbSurface<u8>, width: u32, height: u32) -> PresentAction {
    assert_eq!(surface.present(PresentEvent::Frame { width, height }), PresentAction::Pump);
    surface.present(PresentEvent::Pumped)
}

/// Presents a frame for which a buffer has to be made, and gives the buffer's key.
fn grow(surface: &mut ArgbSurface<u8>, width: u32, height: u32) -> u64 {
    match ask(surface, width, height) {
        PresentAction::Create { key, len, .. } => {
            assert_eq!(len, (width * height * 4) as usize);
            let index = surface.as_slice().len();
            assert_eq!(
                surface.present(PresentEvent::Created(Some(0))),
                PresentAction::Show { index, width: width as i32, height: height as i32 }
            );
            key
        }
        other => panic!("{other:?}"),
    }
}

#[test]
fn first_frame_makes_a_buffer() {
    let mut surface = ArgbSurface::new();
    let key = grow(&mut surface, 4, 3);
    assert_eq!(surface.as_slice().len(), 1);
    let buffer = &surface.as_slice()[0];
    assert_eq!(buffer.key, key);
    assert_eq!((buffer.width, buffer.height, buffer.len), (4, 3, 48));
    assert!(!buffer.released);
    assert_eq!(surface.present(PresentEvent::Pumped), PresentAction::Skip);
}

#[test]
fn frame_is_dropped_while_all_buffers_are_busy() {
    let mut surface = ArgbSurface::new();
    let keys = [grow(&mut surface, 4, 3), grow(&mut surface, 4, 3), grow(&mut surface, 4, 3)];
    assert_ne!(keys[0], keys[1]);
    assert_ne!(keys[0], keys[2]);
    assert_ne!(keys[1], keys[2]);
    assert_eq!(ask(&mut surface, 4, 3), PresentAction::Skip);
    assert_eq!(surface.as_slice().len(), 3);

    // The one that comes back is the one that is drawn into.
    surface.event(keys[1], BufferEvent::Release);
    assert_eq!(
        ask(&mut surface, 4, 3),
        PresentAction::Show { index: 1, width: 4, height: 3 }
    );
    assert_eq!(ask(&mut surface, 4, 3), PresentAction::Skip);
}

#[test]
fn first_free_buffer_is_taken() {
    let mut surface = ArgbSurface::new();
    let a = grow(&mut surface, 4, 3);
    let b = grow(&mut surface, 4, 3);
    surface.event(b, BufferEvent::Release);
    surface.event(a, BufferEvent::Release);
    assert_eq!(
        ask(&mut surface, 4, 3),
        PresentAction::Show { index: 0, width: 4, height: 3 }
    );
    assert!(!surface.as_slice()[0].released);
    assert!(surface.as_slice()[1].released);
}

#[test]
fn resizing_gives_up_free_buffers_only() {
    let mut surface = ArgbSurface::new();
    let a = grow(&mut surface, 4, 3);
    let b = grow(&mut surface, 4, 3);
    let c = grow(&mut surface, 4, 3);
    surface.event(b, BufferEvent::Release);
    let d = grow(&mut surface, 5, 5);
    assert_eq!((a, b, c, d), (0, 1, 2, 3));
    let keys: Vec<u64> = surface.as_slice().iter().map(|buffer| buffer.key).collect();
    assert_eq!(keys, vec![a, c, d]);
    // Neither of the two that are left from the former size is free.
    assert_eq!(ask(&mut surface, 5, 5), PresentAction::Skip);
    surface.event(a, BufferEvent::Release);
    surface.event(c, BufferEvent::Release);
    grow(&mut surface, 5, 5);
    assert_eq!(surface.as_slice().len(), 2);
}

#[test]
fn late_release_of_a_buffer_that_is_gone_frees_no_other() {
    let mut surface = ArgbSurface::new();
    let old = grow(&mut surface, 4, 3);
    surface.event(old, BufferEvent::Release);
    let new = grow(&mut surface, 5, 5);
    assert_ne!(new, old);
    assert_eq!(surface.as_slice().len(), 1);
    surface.event(old, BufferEvent::Release);
    assert!(!surface.as_slice()[0].released);
    // So the one that is shown is not drawn into.
    assert_eq!(grow(&mut surface, 5, 5), 2);
    assert_eq!(surface.as_slice().len(), 2);
}

#[test]
fn keys_are_not_handed_out_again() {
    let mut surface = ArgbSurface::new();
    assert!(surface.has_key_left());
    let mut last = grow(&mut surface, 1, 1);
    for size in 2..40 {
        surface.event(last, BufferEvent::Release);
        let key = grow(&mut surface, size, size);
        assert!(key > last);
        last = key;
    }
    surface.clear();
    assert!(grow(&mut surface, 1, 1) > last);
    // Nor is the key of a buffer that could not be made.
    let failed = match ask(&mut surface, 2, 2) {
        PresentAction::Create { key, .. } => key,
        other => panic!("{other:?}"),
    };
    assert_eq!(surface.present(PresentEvent::Created(None)), PresentAction::Skip);
    assert!(grow(&mut surface, 2, 2) > failed);
}

#[test]
fn other_events_release_nothing() {
    let mut surface = ArgbSurface::new();
    let key = grow(&mut surface, 4, 3);
    surface.event(key, BufferEvent::Other);
    surface.event(key + 1, BufferEvent::Release);
    assert!(!surface.as_slice()[0].released);
    surface.event(key, BufferEvent::Release);
    assert!(surface.as_slice()[0].released);
}

#[test]
fn failed_allocation_drops_the_frame() {
    let mut surface: ArgbSurface<u8> = ArgbSurface::new();
    assert!(matches!(ask(&mut surface, 4, 3), PresentAction::Create { .. }));
    assert_eq!(surface.present(PresentEvent::Created(None)), PresentAction::Skip);
    assert!(surface.as_slice().is_empty());
    grow(&mut surface, 4, 3);
}

#[test]
fn sizes_beyond_the_protocol_are_dropped() {
    let mut surface: ArgbSurface<u8> = ArgbSurface::new();
    for (width, height) in [(0, 4), (4, 0), (0x8000_0000, 4), (4, u32::MAX)] {
        let action = surface.present(PresentEvent::Frame { width, height });
        assert_eq!(action, PresentAction::Skip);
        assert_eq!(surface.present(PresentEvent::Pumped), PresentAction::Skip);
    }
    let action = surface.present(PresentEvent::Frame { width: 0x7fff_ffff, height: 1 });
    assert_eq!(action, PresentAction::Pump);
}

#[test]
fn events_out_of_turn_are_ignored() {
    let mut surface = ArgbSurface::new();
    assert_eq!(surface.present(PresentEvent::Pumped), PresentAction::Skip);
    assert_eq!(surface.present(PresentEvent::Created(Some(1u8))), PresentAction::Skip);
    assert!(surface.as_slice().is_empty());
}

#[test]
fn clearing_gives_up_every_buffer() {
    let mut surface = ArgbSurface::new();
    grow(&mut surface, 4, 3);
    grow(&mut surface, 4, 3);
    surface.clear();
    assert!(surface.as_slice().is_empty());
    grow(&mut surface, 4, 3);
}

#[test]
fn frame_is_copied_to_the_extent_of_the_buffer() {
    let mut surface = ArgbSurface::new();
    grow(&mut surface, 4, 1);
    let mut frame = OsrFrame::default();
    let pixels = [1, 2, 3, 4, 5, 6, 7, 8];
    assert!(frame.on_paint(PaintElementType::View, Some(&pixels[..]), 2, 1));
    let mut memory = vec![0u8; surface.as_slice()[0].len];
    surface.as_slice()[0].copy_frame(memory.as_mut_slice(), &frame);
    assert_eq!(memory, vec![1, 2, 3, 4, 1, 2, 3, 4, 5, 6, 7, 8, 5, 6, 7, 8]);
    surface.as_slice()[0].copy_frame(memory.as_mut_slice(), &OsrFrame::default());
    assert_eq!(memory, vec![0; 16]);
}

#[test]
fn buffer_len_is_checked() {
    assert_eq!(buffer_len(4, 3), Some(48));
    assert_eq!(buffer_len(0, 3), Some(0));
    assert_eq!(buffer_len(-1, 2), None);
    let most = (i32::MAX as usize).checked_mul(i32::MAX as usize).and_then(|n| n.checked_mul(4));
    assert_eq!(buffer_len(i32::MAX, i32::MAX), most);
}

#[test]
fn pool_is_announced_with_its_rows() {
    assert_eq!(
        shm_request(48, 4, 3),
        ShmRequest {
            pool_size: 48,
            offset: 0,
            width: 4,
            height: 3,
            stride: 16,
            format: ShmFormat::Argb8888,
        }
    );
    let len = 0x1_8000_0004usize;
    assert_eq!(shm_request(len, 1, 1).pool_size, len as i32);
}

#[test]
fn damage_depends_on_the_version() {
    assert_eq!(damage(None, 4, 3), None);
    let whole = Damage::Surface { x: 0, y: 0, width: i32::MAX, height: i32::MAX };
    assert_eq!(damage(Some(3), 4, 3), Some(whole));
    let exact = Damage::Buffer { x: 0, y: 0, width: 4, height: 3 };
    assert_eq!(damage(Some(4), 4, 3), Some(exact));
    assert_eq!(damage(Some(6), 4, 3), Some(exact));
}

#[test]
fn buffer_is_made_step_by_step() {
    let next = |progress| allocate_buffer(48, 4, 3, progress);
    assert_eq!(next(AllocationProgress::Begin), AllocationAction::CreateFile);
    assert_eq!(
        next(AllocationProgress::FileCreated { descriptor: 0 }),
        AllocationAction::Resize { len: 48 }
    );
    assert_eq!(
        next(AllocationProgress::Resized { done: true }),
        AllocationAction::MapShared { len: 48 }
    );
    assert_eq!(
        next(AllocationProgress::Mapped { null: false, failed: false }),
        AllocationAction::Announce(shm_request(48, 4, 3))
    );
}

/// Carries out every action, the system giving these replies.
fn make(descriptor: i32, done: bool, null: bool, failed: bool) -> (bool, Option<ShmRequest>) {
    let mut progress = AllocationProgress::Begin;
    let mut mapped = false;
    loop {
        progress = match allocate_buffer(24, 3, 2, progress) {
            AllocationAction::CreateFile => AllocationProgress::FileCreated { descriptor },
            AllocationAction::Resize { len } => {
                assert_eq!(len, 24);
                AllocationProgress::Resized { done }
            }
            AllocationAction::MapShared { len } => {
                assert_eq!(len, 24);
                mapped = !null && !failed;
                AllocationProgress::Mapped { null, failed }
            }
            AllocationAction::Announce(request) => return (mapped, Some(request)),
            AllocationAction::GiveUp => return (mapped, None),
        };
    }
}

#[test]
fn buffer_is_made_whole_or_not_at_all() {
    let whole = ShmRequest {
        pool_size: 24,
        offset: 0,
        width: 3,
        height: 2,
        stride: 12,
        format: ShmFormat::Argb8888,
    };
    for descriptor in [-1, 0, 5] {
        for done in [false, true] {
            for null in [false, true] {
                for failed in [false, true] {
                    let expected = if descriptor >= 0 && done && !null && !failed {
                        (true, Some(whole))
                    } else {
                        (false, None)
                    };
                    assert_eq!(make(descriptor, done, null, failed), expected);
                }
            }
        }
    }
}

#[test]
fn new_buffer_is_free_until_it_is_handed_over() {
    let buffer = ArgbBuffer::new(1, 3, 2, 24, 7u8);
    assert_eq!((buffer.key, buffer.width, buffer.height, buffer.len), (1, 3, 2, 24));
    assert!(buffer.released);
    assert_eq!(buffer.backing, 7);
    let mut surface = ArgbSurface::new();
    assert!(matches!(ask(&mut surface, 3, 2), PresentAction::Create { len: 24, .. }));
    assert_eq!(
        surface.present(PresentEvent::Created(Some(7))),
        PresentAction::Show { index: 0, width: 3, height: 2 }
    );
    assert!(!surface.as_slice()[0].released);
}

#[test]
fn buffer_is_given_up_on_failure() {
    let next = |progress| allocate_buffer(48, 4, 3, progress);
    let failures = [
        AllocationProgress::FileCreated { descriptor: -1 },
        AllocationProgress::Resized { done: false },
        AllocationProgress::Mapped { null: true, failed: false },
        AllocationProgress::Mapped { null: false, failed: true },
    ];
    for failure in failures {
        assert_eq!(next(failure), AllocationAction::GiveUp);
    }
}
