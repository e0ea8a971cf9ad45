use wi_core::editor::mode::{Mode, ModeKind};

#[test]
fn mode_default_kind() {
    assert_eq!(Mode::default().kind(), ModeKind::default());
}
