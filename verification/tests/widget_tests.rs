use tuifw::event::{Event, CMD_GOT_PRIMARY_FOCUS, CMD_LOST_SECONDARY_FOCUS, CMD_LOST_ATTENTION};
use tuifw::screen::Key;
use tuifw::widgets::{ButtonWidget, CheckBoxWidget, RadioButtonWidget, RadioButton, WidgetAction, check_box_click, CMD_RADIO_BUTTON_CLICK};
use tuifw::widgets::{ButtonController, TimerAction, BackgroundWidget, StaticTextWidget, mark_colors, check_box_mark, radio_button_mark};

#[test]
fn button_clicks_on_enter_and_hotkey() {
    assert_eq!(ButtonWidget::update(Event::Key(Key::Enter), true, "~O~K"), (true, WidgetAction::Click));
    assert_eq!(ButtonWidget::update(Event::PostProcessKey(Key::Char('o')), true, "~O~K"), (true, WidgetAction::Click));
    assert_eq!(ButtonWidget::update(Event::PostProcessKey(Key::Alt('o')), true, "~O~K"), (true, WidgetAction::Click));
    assert_eq!(ButtonWidget::update(Event::PostProcessKey(Key::Char('k')), true, "~O~K"), (false, WidgetAction::Nothing));
    assert_eq!(ButtonWidget::update(Event::Key(Key::Enter), false, "~O~K"), (false, WidgetAction::Nothing));
}

#[test]
fn check_box_toggles_and_focuses() {
    assert_eq!(CheckBoxWidget::update(Event::Key(Key::Char(' ')), true, "~B~old"), (true, WidgetAction::Click));
    assert_eq!(CheckBoxWidget::update(Event::PostProcessKey(Key::Char('b')), true, "~B~old"), (true, WidgetAction::Focus));
    assert_eq!(CheckBoxWidget::update(Event::Key(Key::Char(' ')), false, "~B~old"), (false, WidgetAction::Nothing));
    assert_eq!(CheckBoxWidget::update(Event::Cmd(CMD_GOT_PRIMARY_FOCUS), true, ""), (false, WidgetAction::Redraw));
    assert!(check_box_click(false));
    assert!(!check_box_click(true));
}

#[test]
fn radio_button_update() {
    assert_eq!(RadioButtonWidget::update(Event::Key(Key::Char(' ')), true, "One"), (false, WidgetAction::Click));
    assert_eq!(RadioButtonWidget::update(Event::PostProcessKey(Key::Alt('o')), true, "~O~ne"), (true, WidgetAction::FocusAndClick));
    assert_eq!(RadioButtonWidget::update(Event::Key(Key::Tab), true, "One"), (false, WidgetAction::Nothing));
}

fn group(on: &[bool]) -> Vec<RadioButton> {
    on.iter().map(|&b| { let mut r = RadioButton::new(); r.is_on = b; r }).collect()
}

#[test]
fn radio_button_new() {
    let r = RadioButton::new();
    assert!(!r.is_on);
    assert!(!r.allow_turn_off);
    assert_eq!(r.cmd, CMD_RADIO_BUTTON_CLICK);
    assert_eq!(r.text, "");
}

#[test]
fn radio_click_turns_others_off() {
    let mut g = group(&[true, false, true]);
    assert_eq!(RadioButton::click(&mut g, 1), Some(CMD_RADIO_BUTTON_CLICK));
    let on: Vec<bool> = g.iter().map(|b| b.is_on).collect();
    assert_eq!(on, vec![false, true, false]);
}

#[test]
fn radio_click_on_button_refused() {
    let mut g = group(&[false, true]);
    assert_eq!(RadioButton::click(&mut g, 1), None);
    assert!(g[1].is_on);
    g[1].allow_turn_off = true;
    g[1].cmd = 7;
    assert_eq!(RadioButton::click(&mut g, 1), Some(7));
    assert!(!g[1].is_on);
    assert!(!g[0].is_on);
}

#[test]
fn button_redraws_on_focus_changes() {
    assert_eq!(ButtonWidget::update(Event::Cmd(CMD_GOT_PRIMARY_FOCUS), true, "OK"), (false, WidgetAction::Redraw));
    assert_eq!(ButtonWidget::update(Event::Cmd(CMD_LOST_SECONDARY_FOCUS), false, "OK"), (false, WidgetAction::Redraw));
    assert_eq!(ButtonWidget::update(Event::Cmd(CMD_LOST_ATTENTION), true, "OK"), (false, WidgetAction::Nothing));
}

#[test]
fn button_controller_click_cycle() {
    let mut c = ButtonController::new();
    assert!(!c.is_pressed());
    assert_eq!(c.update(Event::Key(Key::Tab), true, "~O~K"), (false, TimerAction::Idle));
    assert!(!c.click_pending);
    assert_eq!(c.update(Event::PostProcessKey(Key::Alt('o')), true, "~O~K"), (true, TimerAction::StartClick));
    assert!(c.click_pending);
    assert_eq!(c.on_click_timer(true, 42), TimerAction::Release(42));
    assert!(!c.click_pending);
    assert!(c.is_pressed());
    c.on_release_timer();
    assert!(!c.is_pressed());
}

#[test]
fn button_controller_disabled_and_dropped() {
    let mut c = ButtonController::new();
    assert_eq!(c.update(Event::Key(Key::Enter), false, "OK"), (false, TimerAction::Idle));
    assert_eq!(c.click(), TimerAction::StartClick);
    assert_eq!(c.on_click_timer(false, 42), TimerAction::Idle);
    assert!(!c.is_pressed());
    c.click();
    c.on_click_timer(true, 1);
    c.click();
    c.drop_controller();
    assert!(!c.click_pending);
    assert!(!c.pressed);
}

#[test]
fn widget_colors_and_marks() {
    assert_eq!(ButtonWidget::colors(true, true, true), (6, 6));
    assert_eq!(ButtonWidget::colors(false, true, true), (3, 4));
    assert_eq!(ButtonWidget::colors(false, true, false), (5, 5));
    assert_eq!(ButtonWidget::colors(false, false, true), (0, 1));
    assert_eq!(ButtonWidget::colors(false, false, false), (2, 2));
    assert_eq!(ButtonWidget::ends(false), ('[', ']'));
    assert_eq!(ButtonWidget::ends(true), (' ', ' '));
    assert_eq!(mark_colors(true), (0, 1));
    assert_eq!(mark_colors(false), (2, 2));
    assert_eq!(check_box_mark(true), 'x');
    assert_eq!(check_box_mark(false), ' ');
    assert_eq!(radio_button_mark(true), '\u{2022}');
    assert_eq!(radio_button_mark(false), ' ');
    assert_eq!(StaticTextWidget::color(true), 0);
    assert_eq!(StaticTextWidget::color(false), 1);
}

#[test]
fn background_pattern_by_column() {
    assert_eq!(BackgroundWidget::pattern_at(false, 2, "a", "b"), " ");
    assert_eq!(BackgroundWidget::pattern_at(true, 2, "a", "b"), "a");
    assert_eq!(BackgroundWidget::pattern_at(true, 3, "a", "b"), "b");
    assert_eq!(BackgroundWidget::pattern_at(true, -1, "a", "b"), "b");
    assert_eq!(BackgroundWidget::pattern_at(true, -2, "a", "b"), "a");
}
