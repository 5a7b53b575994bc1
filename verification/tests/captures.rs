use cosmic_comp::frame::PostprocessSource;
use cosmic_comp::geometry::{Point, Rectangle, Size, Transform};
use cosmic_comp::screencopy::{
    cursor_damage, cursor_element_count, cursor_geometry, cursor_pass, damage_in_buffer,
    postprocess_elements, pre_postprocess, process_capture, send_screencopy_result,
    send_screencopy_result_vulkan, send_toplevel_screencopy_result_vulkan, take_screencopy_frames,
    CaptureFailureReason, CopyCompletion, CopyPlan, CopyRequest, CopySource, CopyTarget,
    CopyTracking, CursorPass, PendingCopy, PostprocessLayer, PrePostprocess, WindowCopyRequest,
};

fn rect(x: i32, y: i32, w: i32, h: i32) -> Rectangle {
    Rectangle::new(Point { x, y }, Size { w, h })
}

const REQUEST: CopyRequest = CopyRequest {
    has_mode: true,
    transform: Transform::Normal,
    buffer_size: Some(Size { w: 1920, h: 1080 }),
    shm_format: None,
    draw_cursor: false,
    frame_is_empty: false,
};

const NO_TEXTURE: PrePostprocess = PrePostprocess {
    texture: None,
    has_cursor_texture: false,
    cursor_geometry: None,
};

#[test]
fn shared_memory_is_drawn_anew() {
    let copy = PendingCopy {
        is_shm: false,
        draw_cursor: true,
        has_additional_damage: false,
    };
    let (tracking, hides) = take_screencopy_frames(&vec![
        copy,
        PendingCopy {
            is_shm: true,
            has_additional_damage: true,
            ..copy
        },
    ]);
    assert_eq!(
        tracking,
        vec![
            CopyTracking { age: 1, with_additional_damage: false },
            CopyTracking { age: 0, with_additional_damage: true },
        ]
    );
    assert!(!hides);
    let (_, hides) = take_screencopy_frames(&vec![
        copy,
        PendingCopy {
            draw_cursor: false,
            ..copy
        },
    ]);
    assert!(hides);
}

#[test]
fn cursors_are_gathered_from_the_front() {
    assert_eq!(cursor_element_count(&vec![true, true, false, true]), 2);
    assert_eq!(cursor_element_count(&vec![]), 0);
    assert_eq!(cursor_geometry(&vec![]), None);
    assert_eq!(
        cursor_geometry(&vec![rect(10, 10, 5, 5), rect(12, 8, 20, 2)]),
        Some(rect(10, 8, 22, 7))
    );
}

#[test]
fn damage_turns_with_the_output() {
    let buffer = Size { w: 1080, h: 1920 };
    let damage = vec![rect(0, 0, 100, 50)];
    assert_eq!(damage_in_buffer(&damage, Transform::Normal, buffer), damage);
    assert_eq!(
        damage_in_buffer(&damage, Transform::_90, buffer),
        vec![rect(0, 1820, 50, 100)]
    );
    assert_eq!(
        damage_in_buffer(&damage, Transform::_180, buffer),
        vec![rect(980, 1870, 100, 50)]
    );
}

#[test]
fn cursor_damage_is_relative_to_the_cursor() {
    let cursor = rect(100, 100, 32, 32);
    let damage = vec![rect(90, 90, 20, 20), rect(0, 0, 10, 10), rect(110, 110, 100, 100)];
    assert_eq!(
        cursor_damage(&damage, cursor),
        vec![rect(0, 0, 10, 10), rect(10, 10, 22, 22)]
    );
}

#[test]
fn the_cursor_is_taken_out_of_captured_content() {
    let is_cursor = vec![true, true, false, true];
    let geometries = vec![
        rect(10, 10, 5, 5),
        rect(12, 8, 20, 2),
        rect(0, 0, 100, 100),
        rect(50, 50, 1, 1),
    ];
    let apart = cursor_pass(&is_cursor, &geometries, true);
    assert_eq!(
        apart,
        CursorPass { elements: 2, geometry: Some(rect(10, 8, 22, 7)) }
    );
    let together = CursorPass { elements: 0, geometry: None };
    assert_eq!(cursor_pass(&is_cursor, &geometries, false), together);
    assert_eq!(cursor_pass(&vec![], &vec![], true), together);

    assert_eq!(
        pre_postprocess(PostprocessSource::Own, Some(7), apart),
        PrePostprocess {
            texture: Some(Some(7)),
            has_cursor_texture: true,
            cursor_geometry: Some(rect(10, 8, 22, 7)),
        }
    );
    assert!(!pre_postprocess(PostprocessSource::Own, Some(7), together).has_cursor_texture);
    assert_eq!(pre_postprocess(PostprocessSource::Mirrored, Some(7), together), NO_TEXTURE);
    assert_eq!(pre_postprocess(PostprocessSource::Direct, None, together), NO_TEXTURE);
}

#[test]
fn captures_need_a_mode_and_a_size() {
    let no_mode = CopyRequest {
        has_mode: false,
        ..REQUEST
    };
    let no_size = CopyRequest {
        buffer_size: None,
        ..REQUEST
    };
    for request in [no_mode, no_size] {
        assert_eq!(
            send_screencopy_result(request, NO_TEXTURE, None),
            Err(CaptureFailureReason::Unknown)
        );
        assert_eq!(
            send_screencopy_result_vulkan(request, None),
            Err(CaptureFailureReason::Unknown)
        );
    }
}

#[test]
fn frames_are_copied_to_dmabufs() {
    assert_eq!(
        send_screencopy_result(REQUEST, NO_TEXTURE, Some(&vec![rect(1, 2, 3, 4)])),
        Ok(CopyPlan {
            target: CopyTarget::Dmabuf,
            source: CopySource::Frame { hide_cursor: true },
            completion: CopyCompletion::OnPresentation,
            transform: Transform::Normal,
            damage: vec![rect(1, 2, 3, 4)],
        })
    );
    let empty = CopyRequest {
        frame_is_empty: true,
        ..REQUEST
    };
    assert_eq!(
        send_screencopy_result(empty, NO_TEXTURE, None),
        Ok(CopyPlan {
            target: CopyTarget::Dmabuf,
            source: CopySource::Nothing,
            completion: CopyCompletion::Immediate,
            transform: Transform::Normal,
            damage: vec![],
        })
    );
}

#[test]
fn captures_of_rotated_outputs_report_rotated_damage() {
    // the output is 1080 wide and 1920 high, the client's buffer 1920 by 1080
    let rotated = CopyRequest {
        transform: Transform::_90,
        ..REQUEST
    };
    let damage = vec![rect(10, 20, 30, 40)];
    let expected = damage_in_buffer(&damage, Transform::_90, Size { w: 1920, h: 1080 });
    assert_eq!(expected.len(), 1);
    assert_ne!(expected, damage);
    assert_eq!(expected[0].size, Size { w: 40, h: 30 });
    for plan in [
        send_screencopy_result(rotated, NO_TEXTURE, Some(&damage)),
        send_screencopy_result_vulkan(rotated, Some(&damage)),
    ] {
        let plan = plan.unwrap();
        assert_eq!(plan.transform, Transform::_90);
        assert_eq!(plan.damage, expected);
    }
}

#[test]
fn unfiltered_content_is_reused() {
    let pre = PrePostprocess {
        texture: Some(Some(875713089)),
        has_cursor_texture: true,
        cursor_geometry: Some(rect(1, 2, 3, 4)),
    };
    let shm = CopyRequest {
        shm_format: Some(875713089),
        ..REQUEST
    };
    assert_eq!(
        send_screencopy_result(shm, pre, Some(&vec![])),
        Ok(CopyPlan {
            target: CopyTarget::Texture,
            source: CopySource::Nothing,
            completion: CopyCompletion::Immediate,
            transform: Transform::Normal,
            damage: vec![],
        })
    );
    let with_cursor = CopyRequest {
        draw_cursor: true,
        ..shm
    };
    assert_eq!(
        send_screencopy_result(with_cursor, pre, Some(&vec![])),
        Ok(CopyPlan {
            target: CopyTarget::Offscreen(875713089),
            source: CopySource::Texture {
                cursor: Some(rect(1, 2, 3, 4))
            },
            completion: CopyCompletion::Immediate,
            transform: Transform::Normal,
            damage: vec![],
        })
    );
}

#[test]
fn vulkan_reads_shared_memory_back() {
    let shm = CopyRequest {
        shm_format: Some(1),
        draw_cursor: true,
        ..REQUEST
    };
    assert_eq!(
        send_screencopy_result_vulkan(shm, Some(&vec![])),
        Ok(CopyPlan {
            target: CopyTarget::Offscreen(1),
            source: CopySource::Frame { hide_cursor: false },
            completion: CopyCompletion::AfterReadback,
            transform: Transform::Normal,
            damage: vec![],
        })
    );
    assert_eq!(
        send_screencopy_result_vulkan(REQUEST, None).unwrap().completion,
        CopyCompletion::OnPresentation
    );
    let empty = CopyRequest {
        frame_is_empty: true,
        ..REQUEST
    };
    assert_eq!(
        send_screencopy_result_vulkan(empty, None).unwrap().completion,
        CopyCompletion::Immediate
    );
    assert_eq!(process_capture(Some(true)), Ok(()));
    assert_eq!(process_capture(Some(false)), Err(CaptureFailureReason::Unknown));
    assert_eq!(process_capture(None), Err(CaptureFailureReason::Unknown));
}

#[test]
fn window_captures_must_fit() {
    let size = Size { w: 640, h: 480 };
    let request = WindowCopyRequest {
        alive: true,
        buffer_size: Some(size),
        window_size: size,
        window_loc: Point { x: 0, y: 0 },
        element_count: 1,
        window_dmabuf_size: Some(size),
        shm_format: None,
    };
    let plan = send_toplevel_screencopy_result_vulkan(request).unwrap();
    assert!(plan.try_direct_blit);
    assert_eq!(plan.target, CopyTarget::Dmabuf);
    assert_eq!(plan.completion, CopyCompletion::OnPresentation);
    assert_eq!(plan.transform, Transform::Normal);
    assert_eq!(plan.damage, rect(0, 0, 640, 480));

    let shm = WindowCopyRequest {
        shm_format: Some(3),
        element_count: 2,
        ..request
    };
    let plan = send_toplevel_screencopy_result_vulkan(shm).unwrap();
    assert!(!plan.try_direct_blit);
    assert_eq!(plan.target, CopyTarget::Offscreen(3));
    assert_eq!(plan.completion, CopyCompletion::AfterReadback);
    assert_eq!(plan.transform, Transform::Normal);
    assert_eq!(plan.damage, rect(0, 0, 640, 480));

    let failure = |request| send_toplevel_screencopy_result_vulkan(request).unwrap_err();
    assert_eq!(
        failure(WindowCopyRequest { alive: false, ..request }),
        CaptureFailureReason::Stopped
    );
    assert_eq!(
        failure(WindowCopyRequest { buffer_size: None, ..request }),
        CaptureFailureReason::Unknown
    );
    assert_eq!(
        failure(WindowCopyRequest { buffer_size: Some(Size { w: 1, h: 1 }), ..request }),
        CaptureFailureReason::BufferConstraints
    );
    for request in [
        WindowCopyRequest { window_loc: Point { x: 1, y: 0 }, ..request },
        WindowCopyRequest { window_dmabuf_size: None, ..request },
        WindowCopyRequest { window_dmabuf_size: Some(Size { w: 1, h: 1 }), ..request },
    ] {
        let plan = send_toplevel_screencopy_result_vulkan(request).unwrap();
        assert!(!plan.try_direct_blit);
    }
}

#[test]
fn the_cursor_is_a_layer_of_its_own() {
    assert_eq!(
        postprocess_elements(true, true),
        vec![PostprocessLayer::Cursor, PostprocessLayer::Content]
    );
    assert_eq!(postprocess_elements(true, false), vec![PostprocessLayer::Content]);
    assert_eq!(postprocess_elements(false, true), vec![PostprocessLayer::Content]);
}
