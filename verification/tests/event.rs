use glab_tui::event::tick_step;

#[test]
fn tick_timing() {
    assert_eq!(tick_step(250, 100), (150, false));
    assert_eq!(tick_step(250, 250), (0, true));
    assert_eq!(tick_step(250, 900), (0, true));
    assert_eq!(tick_step(0, 0), (0, true));
}
