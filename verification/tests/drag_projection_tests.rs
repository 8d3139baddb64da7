use oxitone_preview::playlist_projection::{project, Clip, Drag, DragMode, ResourceKind, TICKS_PER_BEAT};

/// Beats as ticks of the playlist's grid.
fn ticks(beats: f64) -> u64 {
    (beats * TICKS_PER_BEAT as f64).round() as u64
}

/// Ticks as beats.
fn beats(ticks: u64) -> f64 {
    ticks as f64 / TICKS_PER_BEAT as f64
}

fn clip() -> Clip {
    Clip {
        kind: ResourceKind::Pattern,
        id: "clip".into(),
        resource: "pattern".into(),
        track: "a".into(),
        start: ticks(0.),
        length: ticks(4.),
        enabled: true,
    }
}

fn drag(mode: DragMode) -> Drag {
    Drag {
        mode,
        kind: ResourceKind::Pattern,
        resource: "pattern".into(),
        clip: Some(("clip".into(), 0)),
        length: ticks(4.),
        target: Some(("b".into(), ticks(8.))),
        moved: true,
    }
}

#[test]
fn placement_move_copy_resize_and_resource_insertion_keep_actual_content() {
    let mut d = drag(DragMode::Move);
    let moved = project(vec![clip()], Some(&d));
    assert_eq!(moved.len(), 1);
    assert_eq!(moved[0].track, "b");
    assert_eq!(beats(moved[0].start), 8.);
    assert_eq!(moved[0].resource, "pattern");
    assert_eq!(moved[0].id, "clip");
    d.mode = DragMode::Copy;
    let copied = project(vec![clip()], Some(&d));
    assert_eq!(copied.len(), 2);
    assert_eq!(copied[0].track, "a");
    assert_eq!(copied[1].track, "b");
    assert_ne!(copied[0].id, copied[1].id);
    assert_eq!(copied[0].resource, copied[1].resource);
    d.mode = DragMode::Resize;
    d.length = ticks(2.);
    assert_eq!(beats(project(vec![clip()], Some(&d))[0].length), 2.);
    d.clip = None;
    assert_eq!(project(vec![], Some(&d))[0].resource, "pattern");
    d.target = None;
    assert_eq!(
        beats(project(vec![clip()], Some(&d))[0].start),
        0.,
        "invalid drop retains source"
    );
}

#[test]
fn projection_without_a_drag_shows_the_placements() {
    let shown = project(vec![clip()], None);
    assert_eq!(shown.len(), 1);
    assert_eq!(shown[0].track, "a");
}

#[test]
fn dragging_an_unlisted_placement_changes_nothing() {
    let mut d = drag(DragMode::Move);
    d.clip = Some(("elsewhere".into(), 3));
    let shown = project(vec![clip()], Some(&d));
    assert_eq!(shown.len(), 1);
    assert_eq!(shown[0].track, "a");
}

#[test]
fn copies_and_library_drops_are_named_until_the_service_names_them() {
    let d = drag(DragMode::Copy);
    let copied = project(vec![clip()], Some(&d));
    assert_eq!(copied[1].id, "copy:clip");
    assert_eq!(beats(copied[1].start), 8.);
    assert_eq!(beats(copied[1].length), 4.);
    let mut insert = drag(DragMode::Move);
    insert.clip = None;
    insert.length = ticks(1.5);
    let inserted = project(vec![clip()], Some(&insert));
    assert_eq!(inserted.len(), 2);
    assert_eq!(inserted[1].id, "new:pattern");
    assert_eq!(beats(inserted[1].length), 1.5);
    assert!(inserted[1].enabled);
}
