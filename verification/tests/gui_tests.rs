use scaloscope::gui::{GuiEffect, GuiMessage, ScaloscopeGui};

#[test]
fn new_state_starts_at_zero() {
    let gui = ScaloscopeGui::new();
    assert_eq!(gui.value(), 0);
    assert_eq!(gui.value_label(), "0");
}

#[test]
fn buttons_move_the_counter() {
    let mut gui = ScaloscopeGui::new();
    assert_eq!(gui.update(GuiMessage::Increment), GuiEffect::Nothing);
    assert_eq!(gui.update(GuiMessage::Increment), GuiEffect::Nothing);
    assert_eq!(gui.value(), 2);
    assert_eq!(gui.value_label(), "2");
    for _ in 0..5 {
        assert_eq!(gui.update(GuiMessage::Decrement), GuiEffect::Nothing);
    }
    assert_eq!(gui.value(), -3);
    assert_eq!(gui.value_label(), "-3");
}

#[test]
fn poll_asks_for_the_peak_meter() {
    let mut gui = ScaloscopeGui::new();
    gui.update(GuiMessage::Increment);
    assert_eq!(gui.update(GuiMessage::Poll), GuiEffect::RefreshPeakMeter);
    assert_eq!(gui.value(), 1);
}

#[test]
fn gain_change_asks_for_the_parameter() {
    let mut gui = ScaloscopeGui::new();
    assert_eq!(gui.update(GuiMessage::GainChanged), GuiEffect::SetGain);
    assert_eq!(gui.value(), 0);
}

#[test]
fn decrement_undoes_increment() {
    let mut gui = ScaloscopeGui::new();
    for _ in 0..7 {
        gui.update(GuiMessage::Decrement);
    }
    let before = gui.value();
    gui.update(GuiMessage::Increment);
    gui.update(GuiMessage::Decrement);
    assert_eq!(gui.value(), before);
    gui.update(GuiMessage::Decrement);
    gui.update(GuiMessage::Increment);
    assert_eq!(gui.value(), before);
}

#[test]
fn counter_is_net_presses() {
    let msgs = [
        GuiMessage::Increment,
        GuiMessage::Poll,
        GuiMessage::Increment,
        GuiMessage::GainChanged,
        GuiMessage::Decrement,
        GuiMessage::Increment,
        GuiMessage::Poll,
        GuiMessage::Increment,
    ];
    let mut gui = ScaloscopeGui::new();
    for m in msgs {
        gui.update(m);
    }
    assert_eq!(gui.value(), 3);
    assert_eq!(gui.value_label(), "3");
}

#[test]
fn label_matches_display_for_many_values() {
    let mut gui = ScaloscopeGui::new();
    for _ in 0..1234 {
        gui.update(GuiMessage::Decrement);
    }
    assert_eq!(gui.value_label(), (-1234i64).to_string());
}
