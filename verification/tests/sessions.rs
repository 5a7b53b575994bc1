use clap_lex::RawArgs;
use cosmic_comp::geometry::{Point, Rectangle, Size};
use cosmic_comp::pointer::{
    activates_constraint, apply_cursor_hint, constraints_changed, cursor_position_hint,
    find_window, find_window_on_outputs, new_constraint, next_towards_root, offset_under_pointer,
    remove_constraint, warp_pointer, ConstraintRequest, HintChoice, OutputElements, PlacedElement,
    Placement, SeatPointer, WarpSeat, WorkspaceElements,
};
use cosmic_comp::session::{
    argument_kind, backend_failure, grace_remaining, help_text, keeps_waiting, kiosk_exit_code,
    parse_arguments, reap_finished, version_text, ArgumentKind, BackendFailure, ChildStatus,
    Invocation, LastRefresh, RefreshStep, StoppingThread,
};

fn parse(args: &[&str]) -> Invocation {
    parse_arguments(&RawArgs::new(args.iter().copied()))
}

#[test]
fn options_come_before_the_program() {
    let run = |with_xwayland, kiosk_command| Invocation::Run {
        with_xwayland,
        kiosk_command,
    };
    assert_eq!(parse(&[]), run(true, None));
    assert_eq!(parse(&["cosmic-comp"]), run(true, None));
    assert_eq!(parse(&["cosmic-comp", "--no-xwayland"]), run(false, None));
    assert_eq!(parse(&["cosmic-comp", "--help"]), Invocation::ShowHelp);
    assert_eq!(parse(&["cosmic-comp", "--no-xwayland", "-h"]), Invocation::ShowHelp);
    assert_eq!(parse(&["cosmic-comp", "--version"]), Invocation::ShowVersion);
    assert_eq!(parse(&["cosmic-comp", "-V"]), Invocation::ShowVersion);
    assert_eq!(parse(&["cosmic-comp", "-v"]), Invocation::ShowVersion);
    // everything behind a program belongs to it
    assert_eq!(
        parse(&["cosmic-comp", "--no-xwayland", "weston-terminal", "--help"]),
        run(false, Some(2))
    );
    assert_eq!(parse(&["cosmic-comp", "--unknown"]), run(true, Some(1)));
}

#[test]
fn the_first_argument_is_the_compositor() {
    assert_eq!(
        parse(&["--help"]),
        Invocation::Run {
            with_xwayland: true,
            kiosk_command: None
        }
    );
    assert_eq!(argument_kind(None), ArgumentKind::Program);
    assert_eq!(argument_kind(Some("--no-xwayland")), ArgumentKind::NoXwayland);
}

#[test]
fn help_names_all_options() {
    assert_eq!(version_text("1.0", "abc"), "cosmic-comp 1.0 (git commit abc)");
    let help = help_text("1.0", "abc");
    assert!(help.starts_with("cosmic-comp 1.0 (git commit abc)\nSystem76"));
    for option in ["-h, --help", "--no-xwayland", "-v, --version"] {
        assert!(help.contains(option), "{option}");
    }
}

#[test]
fn required_hdr_fails_safely() {
    assert_eq!(backend_failure(false, true, 5_000), BackendFailure::ReturnError);
    assert_eq!(
        backend_failure(true, true, 5_000),
        BackendFailure::SafeExit { grace: Some(5_000) }
    );
    assert_eq!(
        backend_failure(true, false, 5_000),
        BackendFailure::SafeExit { grace: None }
    );
    assert_eq!(grace_remaining(false, 3, 10), Some(7));
    assert_eq!(grace_remaining(false, 10, 10), Some(0));
    assert_eq!(grace_remaining(false, 11, 10), None);
    assert_eq!(grace_remaining(true, 3, 10), None);
}

#[test]
fn the_kiosk_program_ends_the_session() {
    assert_eq!(kiosk_exit_code(ChildStatus::Running), None);
    assert_eq!(kiosk_exit_code(ChildStatus::Exited(Some(3))), Some(3));
    assert_eq!(kiosk_exit_code(ChildStatus::Exited(None)), Some(1));
    assert_eq!(kiosk_exit_code(ChildStatus::Lost), Some(1));
}

#[test]
fn finished_threads_are_joined() {
    let thread = |id, finished| StoppingThread { id, finished };
    let mut threads = vec![thread(1, true), thread(2, false), thread(3, true), thread(4, true)];
    let mut joined: Vec<u64> = reap_finished(&mut threads).iter().map(|thread| thread.id).collect();
    joined.sort();
    assert_eq!(joined, vec![1, 3, 4]);
    assert_eq!(threads, vec![thread(2, false)]);
    assert!(reap_finished(&mut threads).is_empty());
    assert!(keeps_waiting(1, 5, 10));
    assert!(!keeps_waiting(0, 5, 10));
    assert!(!keeps_waiting(1, 10, 10));
}

#[test]
fn refreshes_are_spaced() {
    let mut last = LastRefresh::Never;
    assert_eq!(last.step(1_000), RefreshStep::Refresh);
    last.refreshed(1_000);
    assert_eq!(last.step(150_000_999), RefreshStep::Schedule);
    assert_eq!(last.step(150_001_000), RefreshStep::Refresh);
    assert!(last.scheduled(None));
    assert_eq!(last, LastRefresh::At(1_000));
    assert!(!last.scheduled(Some(8)));
    assert_eq!(last.step(900_000_000), RefreshStep::Skip);
    last.timer_fired();
    assert_eq!(last.step(900_000_000), RefreshStep::Refresh);
}

fn placement(x: i32) -> Placement {
    Placement {
        geometry: Rectangle::new(Point { x, y: 0 }, Size { w: 10, h: 10 }),
        offset: Point { x: 0, y: 0 },
    }
}

fn element(roots: &[u64], placement: Option<Placement>) -> PlacedElement {
    PlacedElement {
        roots: roots.to_vec(),
        placement,
    }
}

#[test]
fn windows_are_found_from_top_to_bottom() {
    let output = OutputElements {
        sticky: vec![element(&[1], None), element(&[1, 2], Some(placement(1)))],
        workspaces: vec![
            WorkspaceElements {
                fullscreen: Some(element(&[3], None)),
                mapped: vec![element(&[1], None), element(&[3], Some(placement(2)))],
            },
            WorkspaceElements {
                fullscreen: Some(element(&[1], Some(placement(3)))),
                mapped: vec![element(&[1], Some(placement(4)))],
            },
        ],
        layers: vec![element(&[5], None), element(&[5], Some(placement(5)))],
    };
    // the first sticky window with the root has no place for it
    assert_eq!(find_window(&output, 1), Some(placement(3)));
    assert_eq!(find_window(&output, 2), Some(placement(1)));
    assert_eq!(find_window(&output, 3), Some(placement(2)));
    assert_eq!(find_window(&output, 5), Some(placement(5)));
    assert_eq!(find_window(&output, 6), None);

    let empty = OutputElements {
        sticky: vec![],
        workspaces: vec![],
        layers: vec![],
    };
    let outputs = vec![empty, output];
    assert_eq!(find_window_on_outputs(&outputs, 5), Some((1, placement(5))));
    assert_eq!(find_window_on_outputs(&outputs, 6), None);
}

#[test]
fn popups_lead_to_their_parent() {
    assert_eq!(next_towards_root(Some(1), true, Some(2)), Some(1));
    assert_eq!(next_towards_root(None, true, Some(2)), Some(2));
    assert_eq!(next_towards_root(None, false, Some(2)), None);
    assert_eq!(next_towards_root(None, true, None), None);
    let origin = Point { x: 0, y: 0 };
    let offset = Point { x: 3, y: 4 };
    assert_eq!(offset_under_pointer(1, Some(1), None), Some(origin));
    assert_eq!(offset_under_pointer(1, Some(2), Some(offset)), Some(offset));
    assert_eq!(offset_under_pointer(1, Some(2), None), None);
    assert_eq!(offset_under_pointer(1, None, Some(offset)), None);
}

#[test]
fn constraints_need_focus_and_pointer() {
    let request = ConstraintRequest {
        exists: true,
        is_focused: true,
        is_under: true,
        region_contains: None,
    };
    assert!(activates_constraint(request));
    assert!(activates_constraint(ConstraintRequest { region_contains: Some(true), ..request }));
    assert!(!activates_constraint(ConstraintRequest { region_contains: Some(false), ..request }));
    assert!(!activates_constraint(ConstraintRequest { is_focused: false, ..request }));
    assert!(!activates_constraint(ConstraintRequest { is_under: false, ..request }));
    assert!(!activates_constraint(ConstraintRequest { exists: false, ..request }));
}

#[test]
fn hints_are_applied_once() {
    let seat = |pointer| SeatPointer {
        pointer,
        hint: None,
    };
    let mut seats = vec![seat(None), seat(Some(7)), seat(Some(8))];
    cursor_position_hint(&mut seats, 7, 40, false);
    assert_eq!(seats[1].hint, None);
    cursor_position_hint(&mut seats, 7, 40, true);
    assert_eq!(seats[1].hint, Some(40));
    assert!(!remove_constraint(&mut seats, 7, 41));
    assert!(!remove_constraint(&mut seats, 8, 40));
    assert!(remove_constraint(&mut seats, 7, 40));
    assert!(!remove_constraint(&mut seats, 7, 40));

    cursor_position_hint(&mut seats, 8, 40, true);
    new_constraint(&mut seats, 8);
    assert!(!remove_constraint(&mut seats, 8, 40));
    cursor_position_hint(&mut seats, 9, 40, true);
    assert!(seats.iter().all(|seat| seat.hint.is_none()));
}

#[test]
fn illegal_hints_give_up_a_coordinate() {
    assert_eq!(apply_cursor_hint(true, true, true), HintChoice::Hinted);
    assert_eq!(apply_cursor_hint(false, true, true), HintChoice::HintedY);
    assert_eq!(apply_cursor_hint(false, false, true), HintChoice::HintedX);
    assert_eq!(apply_cursor_hint(false, false, false), HintChoice::Unchanged);
    let size = Size { w: 24, h: 24 };
    assert!(constraints_changed(None, size));
    assert!(constraints_changed(Some(Size { w: 32, h: 32 }), size));
    assert!(!constraints_changed(Some(size), size));
}

#[test]
fn warps_need_the_right_serial_and_focus() {
    let seat = |pointer, last_enter, focus_has_surface| WarpSeat {
        pointer,
        last_enter,
        focus_has_surface,
    };
    let seats = vec![
        seat(None, Some(5), true),
        seat(Some(1), Some(4), true),
        seat(Some(2), Some(5), false),
        seat(Some(3), Some(5), true),
        seat(Some(4), Some(5), true),
    ];
    assert_eq!(warp_pointer(&seats, 5), Some(3));
    assert_eq!(warp_pointer(&seats, 4), Some(1));
    assert_eq!(warp_pointer(&seats, 6), None);
}
