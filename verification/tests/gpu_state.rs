use smeagol::gpu::{FramePlan, LifeState, RowWrite, STANDARD_BIRTH_RULE, STANDARD_SURVIVE_RULE};

#[test]
fn new_state_uses_standard_rules() {
    let s = LifeState::new(64, 32);
    assert_eq!(s.width(), 64);
    assert_eq!(s.height(), 32);
    assert_eq!(s.birth_rule(), 8);
    assert_eq!(s.survive_rule(), 12);
    assert_eq!(STANDARD_BIRTH_RULE, 1 << 3);
    assert_eq!(STANDARD_SURVIVE_RULE, (1 << 2) | (1 << 3));
    assert_eq!(s.frame_index(), 0);
    assert_eq!(s.cell_count(), 2048);
    assert_eq!(s.readback_size(), 8192);
}

#[test]
fn cell_offsets() {
    let s = LifeState::new(10, 5);
    assert_eq!(s.cell_offset(0, 0), Some(0));
    assert_eq!(s.cell_offset(3, 2), Some((2 * 10 + 3) * 4));
    assert_eq!(s.cell_offset(9, 4), Some(49 * 4));
    assert_eq!(s.cell_offset(10, 0), None);
    assert_eq!(s.cell_offset(0, 5), None);
}

#[test]
fn row_writes_clip_to_grid() {
    let s = LifeState::new(10, 5);
    let w = s.row_writes(8, 3, 4, 3, 12);
    assert_eq!(
        w,
        vec![
            RowWrite { offset: (3 * 10 + 8) * 4, start: 0, end: 2 },
            RowWrite { offset: (4 * 10 + 8) * 4, start: 4, end: 6 },
        ]
    );
}

#[test]
fn row_writes_inside_grid() {
    let s = LifeState::new(10, 5);
    let w = s.row_writes(1, 1, 3, 2, 6);
    assert_eq!(
        w,
        vec![
            RowWrite { offset: 11 * 4, start: 0, end: 3 },
            RowWrite { offset: 21 * 4, start: 3, end: 6 },
        ]
    );
}

#[test]
fn row_writes_wrong_length_or_below_grid() {
    let s = LifeState::new(10, 5);
    assert!(s.row_writes(1, 1, 3, 2, 5).is_empty());
    assert!(s.row_writes(1, 5, 3, 2, 6).is_empty());
    assert!(s.row_writes(1, 1, 3, 0, 0).is_empty());
}

#[test]
fn frames_alternate_buffers() {
    let mut s = LifeState::new(20, 40);
    assert_eq!(s.current_buffer(), 0);
    assert_eq!(
        s.frame_plan(),
        FramePlan { bind_group: 0, workgroups_x: 2, workgroups_y: 3 }
    );
    s.finish_frame();
    assert_eq!(s.current_buffer(), 1);
    assert_eq!(s.frame_plan().bind_group, 1);
    s.finish_frame();
    assert_eq!(s.current_buffer(), 0);
    assert_eq!(s.frame_index(), 2);
    s.finish_frame();
    s.reset();
    assert_eq!(s.frame_index(), 0);
    assert_eq!(s.current_buffer(), 0);
}

#[test]
fn workgroups_round_up() {
    let s = LifeState::new(16, 17);
    let p = s.frame_plan();
    assert_eq!(p.workgroups_x, 1);
    assert_eq!(p.workgroups_y, 2);
    let z = LifeState::new(0, 0);
    assert_eq!(z.frame_plan().workgroups_x, 0);
}

#[test]
fn update_rules_and_resize() {
    let mut s = LifeState::new(8, 8);
    s.update_rules(0b1001000, 0b1100);
    assert_eq!(s.birth_rule(), 0b1001000);
    assert_eq!(s.survive_rule(), 0b1100);
    s.finish_frame();
    s.resize(30, 2);
    assert_eq!(s.width(), 30);
    assert_eq!(s.height(), 2);
    assert_eq!(s.cell_count(), 60);
    assert_eq!(s.frame_index(), 0);
    assert_eq!(s.birth_rule(), 0b1001000);
}
