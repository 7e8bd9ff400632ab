//! The simple widgets: their sizes, their placement of children, and what
//! they do on a key.

use vstd::prelude::*;
use crate::num::wrap16;
use crate::geom::{
    Point, Vector, Rect, Thickness, HAlign, VAlign, thickness_shrink_rect, thickness_shrink_size,
    thickness_expand_size, thickness_align, point_offset, rect_r,
};
use crate::panels::{max_fold, max_size_of};
use crate::screen::Key;
use crate::event::{Event, CMD_GOT_PRIMARY_FOCUS, CMD_LOST_PRIMARY_FOCUS, CMD_LOST_SECONDARY_FOCUS};
use crate::text::{text_width, text_width_spec, label, label_spec, label_width, label_width_spec};

verus! {

/// What a widget asks for after an event, besides being handled or not.
#[derive(Clone, Copy, Debug, PartialEq, Eq, Structural)]
pub enum WidgetAction {
    Nothing,
    /// Draw the window again.
    Redraw,
    /// Act as clicked.
    Click,
    /// Take the primary focus.
    Focus,
    /// Take the primary focus and act as clicked.
    FocusAndClick,
}

/// `(width, 1)`: the size of a one-line widget.
pub open spec fn line_size(w: i16) -> Vector {
    Vector { x: w, y: 1 }
}

pub open spec fn unwrap_or_one(a: Option<i16>) -> i16 {
    match a { Some(x) => x, None => 1 }
}

// ----------------------------------------------------------------- canvas

/// A panel that puts each child at its own position, at its desired size.
#[derive(Clone, Copy, Debug, Default)]
pub struct CanvasWidget;

impl CanvasWidget {
    /// Children are offered unbounded room.
    pub fn child_request() -> (r: (Option<i16>, Option<i16>))
        ensures
            r == (None::<i16>, None::<i16>),
    {
        (None, None)
    }

    /// A canvas takes all the room it is offered (1 in an unbounded direction).
    pub fn measure(aw: Option<i16>, ah: Option<i16>) -> (r: Vector)
        ensures
            r == (Vector { x: unwrap_or_one(aw), y: unwrap_or_one(ah) }),
    {
        Vector { x: match aw { Some(x) => x, None => 1 }, y: match ah { Some(y) => y, None => 1 } }
    }

    /// The bounds of a child placed at `tl` with desired size `desired`.
    pub fn child_bounds(tl: Point, desired: Vector) -> (r: Rect)
        ensures
            r == (Rect { tl, size: desired }),
    {
        Rect { tl, size: desired }
    }

    /// A canvas is as large as its final bounds.
    pub fn arrange(fb: Rect) -> (r: Vector)
        ensures
            r == fb.size,
    {
        fb.size
    }
}

// ------------------------------------------------------------- background

/// A panel that lays all its children over each other in its whole area.
#[derive(Clone, Copy, Debug, Default)]
pub struct BackgroundWidget;

impl BackgroundWidget {
    /// The largest of the children's desired sizes.
    pub fn measure(desired: &[Vector]) -> (r: Vector)
        ensures
            r == max_fold(desired@),
    {
        max_size_of(desired)
    }

    /// Every child gets the whole area; the panel is as large as its bounds.
    pub fn arrange(fb: Rect) -> (r: (Rect, Vector))
        ensures
            r == (fb, fb.size),
    {
        (fb, fb.size)
    }

    /// What a background shows at column `x`: its even or its odd pattern,
    /// or a blank when it shows no pattern.
    pub fn pattern_at<'a>(show_pattern: bool, x: i16, even: &'a str, odd: &'a str) -> (r: &'a str)
        ensures
            !show_pattern ==> r@ == " "@,
            show_pattern && x % 2 == 0 ==> r@ == even@,
            show_pattern && x % 2 != 0 ==> r@ == odd@,
    {
        if !show_pattern {
            " "
        } else {
            let u: u32 = (x as i32 + 65536) as u32;
            if u % 2 == 0 { even } else { odd }
        }
    }
}

/// The presenter of a content window: as large as its largest child.
#[derive(Clone, Copy, Debug, Default)]
pub struct ContentPresenterWidget;

impl ContentPresenterWidget {
    pub fn measure(desired: &[Vector]) -> (r: Vector)
        ensures
            r == max_fold(desired@),
    {
        max_size_of(desired)
    }

    /// Every child gets the whole area; the presenter is as large as the
    /// largest bounds its children took (`rendered`).
    pub fn arrange(fb: Rect, rendered: &[Vector]) -> (r: (Rect, Vector))
        ensures
            r == (fb, max_fold(rendered@)),
    {
        (fb, max_size_of(rendered))
    }
}

// ------------------------------------------------------------------ frame

/// Where a title goes in the top line of a frame of bounds `bounds`: in the
/// text area (the top line less two columns at each end), aligned when it
/// fits, else from its start (and cut).
pub open spec fn title_area(bounds: Rect) -> Rect {
    let line = Rect {
        tl: bounds.tl,
        size: Vector { x: bounds.size.x, y: if bounds.size.y == 0 { 0 } else { 1 } },
    };
    thickness_shrink_rect(Thickness { l: 2, t: 0, r: 2, b: 0 }, line)
}

pub open spec fn title_fits(bounds: Rect, width: i16) -> bool {
    width <= title_area(bounds).size.x
}

pub open spec fn title_bounds(bounds: Rect, width: i16, align: HAlign) -> Rect {
    let area = title_area(bounds);
    if title_fits(bounds, width) {
        thickness_shrink_rect(thickness_align(Vector { x: width, y: 1 }, area.size, align, VAlign::Top), area)
    } else {
        area
    }
}

/// A frame: a double or single border with an optional title.
#[derive(Clone, Copy, Debug, Default)]
pub struct FrameWidget;

impl FrameWidget {
    /// Children are offered the room inside the border.
    pub fn child_request(aw: Option<i16>, ah: Option<i16>) -> (r: (Option<i16>, Option<i16>))
        ensures
            ({
                let inner = thickness_shrink_size(
                    Thickness { l: 1, t: 1, r: 1, b: 1 },
                    Vector { x: match aw { Some(x) => x, None => 0 }, y: match ah { Some(y) => y, None => 0 } },
                );
                r == (
                    match aw { Some(_) => Some(inner.x), None => None::<i16> },
                    match ah { Some(_) => Some(inner.y), None => None::<i16> },
                )
            }),
    {
        let avail = Vector { x: match aw { Some(x) => x, None => 0 }, y: match ah { Some(y) => y, None => 0 } };
        let inner = Thickness::all(1).shrink_rect_size(avail);
        (
            match aw { Some(_) => Some(inner.x), None => None },
            match ah { Some(_) => Some(inner.y), None => None },
        )
    }

    /// The border around the largest of the children's desired sizes.
    pub fn measure(desired: &[Vector]) -> (r: Vector)
        ensures
            r == thickness_expand_size(Thickness { l: 1, t: 1, r: 1, b: 1 }, max_fold(desired@)),
    {
        Thickness::all(1).expand_rect_size(max_size_of(desired))
    }

    /// Children get the inside of the border; the frame its whole bounds.
    pub fn arrange(fb: Rect) -> (r: (Rect, Vector))
        ensures
            r == (thickness_shrink_rect(Thickness { l: 1, t: 1, r: 1, b: 1 }, fb), fb.size),
    {
        (Thickness::all(1).shrink_rect(fb), fb.size)
    }

    /// Where a title of width `width` goes, and whether it fits whole.
    pub fn title_layout(bounds: Rect, width: i16, align: HAlign) -> (r: (bool, Rect))
        ensures
            r == (title_fits(bounds, width), title_bounds(bounds, width, align)),
    {
        let area = Thickness::new(2, 0, 2, 0).shrink_rect(bounds.t_line());
        if width <= area.w() {
            let margin = Thickness::align(Vector { x: width, y: 1 }, area.size, align, VAlign::Top);
            (true, margin.shrink_rect(area))
        } else {
            (false, area)
        }
    }
}

// ------------------------------------------------------------------- text

/// A line of text.
#[derive(Clone, Copy, Debug, Default)]
pub struct StaticTextWidget;

impl StaticTextWidget {
    pub fn measure(text: &str) -> (r: Vector)
        ensures
            r == line_size(text_width_spec(text@)),
    {
        Vector { x: text_width(text), y: 1 }
    }

    /// The palette slot of static text: greyed when it is disabled.
    pub fn color(enabled: bool) -> (r: u8)
        ensures
            r == (if enabled { 0u8 } else { 1u8 }),
    {
        if enabled { 0 } else { 1 }
    }
}

/// A line of `~`-marked label text.
#[derive(Clone, Copy, Debug, Default)]
pub struct LabelWidget;

impl LabelWidget {
    pub fn measure(text: &str) -> (r: Vector)
        ensures
            r == line_size(label_width_spec(text@)),
    {
        Vector { x: label_width(text), y: 1 }
    }
}

// ----------------------------------------------------------------- button

/// Whether `e` is a post-processed key `c` (plain or with Alt) that matches
/// the hotkey `hotkey`.
pub open spec fn hotkey_hit(e: Event, hotkey: Option<char>) -> bool {
    match e {
        Event::PostProcessKey(Key::Alt(c)) => Some(c) == hotkey,
        Event::PostProcessKey(Key::Char(c)) => Some(c) == hotkey,
        _ => false,
    }
}

fn hotkey_hit_exec(e: Event, text: &str) -> (r: bool)
    ensures
        r == hotkey_hit(e, label_spec(text@)),
{
    match e {
        Event::PostProcessKey(Key::Alt(c)) => {
            let l = label(text);
            match l {
                Some(h) => h == c,
                None => false,
            }
        },
        Event::PostProcessKey(Key::Char(c)) => {
            let l = label(text);
            match l {
                Some(h) => h == c,
                None => false,
            }
        },
        _ => false,
    }
}

/// A push button with a `~`-marked label.
#[derive(Clone, Copy, Debug, Default)]
pub struct ButtonWidget;

impl ButtonWidget {
    /// The label and a column on each side.
    pub fn measure(text: &str) -> (r: Vector)
        ensures
            r == line_size(wrap16(label_width_spec(text@) + 2)),
    {
        Vector { x: label_width(text).wrapping_add(2), y: 1 }
    }

    /// A button clicks on Enter and on its hotkey, when it is enabled.  A
    /// change of the primary or the secondary focus redraws it.
    pub fn update(event: Event, enabled: bool, text: &str) -> (r: (bool, WidgetAction))
        ensures
            r == (if is_any_focus_change(event) {
                (false, WidgetAction::Redraw)
            } else if enabled && (event == Event::Key(Key::Enter) || hotkey_hit(event, label_spec(text@))) {
                (true, WidgetAction::Click)
            } else {
                (false, WidgetAction::Nothing)
            }),
    {
        if let Event::Cmd(n) = event {
            if n <= 3 {
                return (false, WidgetAction::Redraw);
            }
        }
        if !enabled {
            return (false, WidgetAction::Nothing);
        }
        if matches!(event, Event::Key(Key::Enter)) || hotkey_hit_exec(event, text) {
            (true, WidgetAction::Click)
        } else {
            (false, WidgetAction::Nothing)
        }
    }

    /// The palette slots a button is drawn with, for its text and its hotkey.
    pub fn colors(pressed: bool, focused: bool, enabled: bool) -> (r: (u8, u8))
        ensures
            r == button_colors(pressed, focused, enabled),
    {
        if pressed {
            (6, 6)
        } else if focused {
            if !enabled { (5, 5) } else { (3, 4) }
        } else {
            if !enabled { (2, 2) } else { (0, 1) }
        }
    }

    /// The chars at the two ends of a button: brackets, or blanks while it is
    /// pressed.
    pub fn ends(pressed: bool) -> (r: (char, char))
        ensures
            r == (if pressed { (' ', ' ') } else { ('[', ']') }),
    {
        if pressed { (' ', ' ') } else { ('[', ']') }
    }
}

/// Whether `e` tells of the primary or the secondary focus coming or going.
pub open spec fn is_any_focus_change(e: Event) -> bool {
    e matches Event::Cmd(n) && n <= CMD_LOST_SECONDARY_FOCUS
}

pub open spec fn button_colors(pressed: bool, focused: bool, enabled: bool) -> (u8, u8) {
    if pressed {
        (6, 6)
    } else if focused {
        if !enabled { (5, 5) } else { (3, 4) }
    } else {
        if !enabled { (2, 2) } else { (0, 1) }
    }
}

/// The delay, in milliseconds, from a click to its command.
pub const BUTTON_CLICK_DELAY: u16 = 0;
/// How long, in milliseconds, a clicked button stays pressed.
pub const BUTTON_RELEASE_DELAY: u16 = 100;

/// The timers of a button.  A click starts the click timer; when it fires on
/// an enabled button, the button is pressed, its command is raised and the
/// release timer starts; when that one fires, the button is released.
/// Starting a timer that is already running starts it anew.
#[derive(Clone, Copy, Debug, PartialEq, Eq, Structural)]
pub struct ButtonController {
    /// The click timer runs.
    pub click_pending: bool,
    /// The release timer runs: the button is drawn pressed.
    pub pressed: bool,
}

/// What the timers of a button are to do after a step.
#[derive(Clone, Copy, Debug, PartialEq, Eq, Structural)]
pub enum TimerAction {
    Idle,
    /// Start (or start anew) the click timer.
    StartClick,
    /// Start (or start anew) the release timer, and raise the command.
    Release(u16),
}

impl ButtonController {
    pub fn new() -> (r: ButtonController)
        ensures
            !r.click_pending,
            !r.pressed,
    {
        ButtonController { click_pending: false, pressed: false }
    }

    pub fn is_pressed(&self) -> (r: bool)
        ensures
            r == self.pressed,
    {
        self.pressed
    }

    /// Start the click timer.
    pub fn click(&mut self) -> (r: TimerAction)
        ensures
            final(self).click_pending,
            final(self).pressed == old(self).pressed,
            r == TimerAction::StartClick,
    {
        self.click_pending = true;
        TimerAction::StartClick
    }

    /// A key reaches the button: Enter or its hotkey clicks it, when it is
    /// enabled.  Whether the key was handled is the first result.
    pub fn update(&mut self, event: Event, enabled: bool, text: &str) -> (r: (bool, TimerAction))
        ensures
            enabled && (event == Event::Key(Key::Enter) || hotkey_hit(event, label_spec(text@))) ==> {
                &&& r == (true, TimerAction::StartClick)
                &&& final(self).click_pending
                &&& final(self).pressed == old(self).pressed
            },
            !(enabled && (event == Event::Key(Key::Enter) || hotkey_hit(event, label_spec(text@)))) ==> {
                &&& r == (false, TimerAction::Idle)
                &&& *final(self) == *old(self)
            },
    {
        if enabled && (matches!(event, Event::Key(Key::Enter)) || hotkey_hit_exec(event, text)) {
            let a = self.click();
            (true, a)
        } else {
            (false, TimerAction::Idle)
        }
    }

    /// The click timer fires.  On an enabled button this presses it and
    /// raises its command `cmd`.
    pub fn on_click_timer(&mut self, enabled: bool, cmd: u16) -> (r: TimerAction)
        ensures
            !final(self).click_pending,
            enabled ==> final(self).pressed && r == TimerAction::Release(cmd),
            !enabled ==> final(self).pressed == old(self).pressed && r == TimerAction::Idle,
    {
        self.click_pending = false;
        if enabled {
            self.pressed = true;
            TimerAction::Release(cmd)
        } else {
            TimerAction::Idle
        }
    }

    /// The release timer fires: the button is released.
    pub fn on_release_timer(&mut self)
        ensures
            !final(self).pressed,
            final(self).click_pending == old(self).click_pending,
    {
        self.pressed = false;
    }

    /// The button goes away: both timers are dropped.
    pub fn drop_controller(&mut self)
        ensures
            !final(self).click_pending,
            !final(self).pressed,
    {
        self.click_pending = false;
        self.pressed = false;
    }
}

// --------------------------------------------------------------- check box

/// The size of a check box or a radio button: the three-column mark, and a
/// space and the label when there is one.
pub open spec fn mark_size(text: Seq<char>) -> Vector {
    if text.len() == 0 {
        Vector { x: 3, y: 1 }
    } else {
        Vector { x: wrap16(label_width_spec(text) + 4), y: 1 }
    }
}

fn mark_size_exec(text: &str) -> (r: Vector)
    ensures
        r == mark_size(text@),
{
    if text.is_empty() {
        Vector { x: 3, y: 1 }
    } else {
        Vector { x: label_width(text).wrapping_add(4), y: 1 }
    }
}

/// Whether `e` tells of the primary focus coming or going.
pub open spec fn is_focus_change(e: Event) -> bool {
    e == Event::Cmd(CMD_GOT_PRIMARY_FOCUS) || e == Event::Cmd(CMD_LOST_PRIMARY_FOCUS)
}

/// A check box with a `~`-marked label.
#[derive(Clone, Copy, Debug, Default)]
pub struct CheckBoxWidget;

impl CheckBoxWidget {
    pub fn measure(text: &str) -> (r: Vector)
        ensures
            r == mark_size(text@),
    {
        mark_size_exec(text)
    }

    /// Space toggles an enabled check box; its hotkey focuses it.  A change
    /// of focus redraws it.
    pub fn update(event: Event, enabled: bool, text: &str) -> (r: (bool, WidgetAction))
        ensures
            r == (if is_focus_change(event) {
                (false, WidgetAction::Redraw)
            } else if enabled && event == Event::Key(Key::Char(' ')) {
                (true, WidgetAction::Click)
            } else if enabled && hotkey_hit(event, label_spec(text@)) {
                (true, WidgetAction::Focus)
            } else {
                (false, WidgetAction::Nothing)
            }),
    {
        if matches!(event, Event::Cmd(0u16)) || matches!(event, Event::Cmd(1u16)) {
            return (false, WidgetAction::Redraw);
        }
        if !enabled {
            return (false, WidgetAction::Nothing);
        }
        if matches!(event, Event::Key(Key::Char(' '))) {
            (true, WidgetAction::Click)
        } else if hotkey_hit_exec(event, text) {
            (true, WidgetAction::Focus)
        } else {
            (false, WidgetAction::Nothing)
        }
    }
}

/// The palette slots of a check box, a radio button or a label, for its
/// text and its hotkey: both greyed when it is disabled.
pub fn mark_colors(enabled: bool) -> (r: (u8, u8))
    ensures
        r == (if enabled { (0u8, 1u8) } else { (2u8, 2u8) }),
{
    if enabled { (0, 1) } else { (2, 2) }
}

/// The char inside the brackets of a check box.
pub fn check_box_mark(is_on: bool) -> (r: char)
    ensures
        r == (if is_on { 'x' } else { ' ' }),
{
    if is_on { 'x' } else { ' ' }
}

/// The char inside the parentheses of a radio button.
pub fn radio_button_mark(is_on: bool) -> (r: char)
    ensures
        r == (if is_on { '\u{2022}' } else { ' ' }),
{
    if is_on { '\u{2022}' } else { ' ' }
}

/// The state of a check box after a click: toggled.
pub fn check_box_click(is_on: bool) -> (r: bool)
    ensures
        r == !is_on,
{
    !is_on
}

// ------------------------------------------------------------ radio button

pub const CMD_RADIO_BUTTON_CLICK: u16 = 100;

/// A radio button: one of a group of sibling buttons of which at most one is on.
pub struct RadioButton {
    pub is_on: bool,
    pub allow_turn_off: bool,
    pub cmd: u16,
    pub text: String,
}

impl RadioButton {
    pub fn new() -> (r: RadioButton)
        ensures
            !r.is_on,
            !r.allow_turn_off,
            r.cmd == CMD_RADIO_BUTTON_CLICK,
            r.text@ == Seq::<char>::empty(),
    {
        RadioButton { is_on: false, allow_turn_off: false, cmd: CMD_RADIO_BUTTON_CLICK, text: String::new() }
    }

    /// Clicks button `i` of a group of siblings.  An off button turns on and
    /// every other one off; an on button turns off only if it allows that.
    /// Returns the command to raise, or `None` when the click is refused.
    pub fn click(group: &mut Vec<RadioButton>, i: usize) -> (r: Option<u16>)
        requires
            i < old(group)@.len(),
        ensures
            final(group)@.len() == old(group)@.len(),
            forall|j: int| 0 <= j < old(group)@.len() ==> {
                &&& #[trigger] final(group)@[j].allow_turn_off == old(group)@[j].allow_turn_off
                &&& final(group)@[j].cmd == old(group)@[j].cmd
                &&& final(group)@[j].text@ == old(group)@[j].text@
            },
            ({
                let b = old(group)@[i as int];
                if !b.is_on || b.allow_turn_off {
                    &&& r == Some(b.cmd)
                    &&& final(group)@[i as int].is_on == !b.is_on
                    &&& forall|j: int| 0 <= j < old(group)@.len() && j != i ==>
                        #[trigger] final(group)@[j].is_on == (b.is_on && old(group)@[j].is_on)
                } else {
                    &&& r is None
                    &&& forall|j: int| 0 <= j < old(group)@.len() ==> #[trigger] final(group)@[j].is_on == old(group)@[j].is_on
                }
            }),
    {
        let is_on = group[i].is_on;
        let allow = group[i].allow_turn_off;
        if is_on && !allow {
            return None;
        }
        let cmd = group[i].cmd;
        let mut b = RadioButton::new();
        group.set_and_swap(i, &mut b);
        b.is_on = !is_on;
        group.set_and_swap(i, &mut b);
        if !is_on {
            let mut j: usize = 0;
            let ghost g0 = old(group)@;
            while j < group.len()
                invariant
                    group@.len() == g0.len(),
                    i < g0.len(),
                    j <= g0.len(),
                    group@[i as int].is_on,
                    !g0[i as int].is_on,
                    forall|k: int| 0 <= k < g0.len() ==> {
                        &&& #[trigger] group@[k].allow_turn_off == g0[k].allow_turn_off
                        &&& group@[k].cmd == g0[k].cmd
                        &&& group@[k].text@ == g0[k].text@
                    },
                    forall|k: int| 0 <= k < j && k != i ==> !#[trigger] group@[k].is_on,
                    forall|k: int| j <= k < g0.len() && k != i ==> #[trigger] group@[k].is_on == g0[k].is_on,
                decreases g0.len() - j,
            {
                if j != i {
                    let ghost before = group@;
                    let mut c = RadioButton::new();
                    group.set_and_swap(j, &mut c);
                    assert(c == before[j as int]);
                    c.is_on = false;
                    assert(c.text == before[j as int].text);
                    group.set_and_swap(j, &mut c);
                    assert forall|k: int| 0 <= k < g0.len() implies {
                        &&& #[trigger] group@[k].allow_turn_off == g0[k].allow_turn_off
                        &&& group@[k].cmd == g0[k].cmd
                        &&& group@[k].text@ == g0[k].text@
                    } by {
                        if k != j {
                            assert(group@[k] == before[k]);
                        }
                    }
                }
                j = j + 1;
            }
        }
        Some(cmd)
    }
}

/// After a radio button is clicked on, it is the only one on in its group.
pub proof fn law_radio_click_exclusive(old_on: Seq<bool>, new_on: Seq<bool>, i: int)
    requires
        0 <= i < old_on.len(),
        !old_on[i],
        new_on.len() == old_on.len(),
        new_on[i],
        forall|j: int| 0 <= j < old_on.len() && j != i ==> #[trigger] new_on[j] == (old_on[i] && old_on[j]),
    ensures
        forall|j: int| 0 <= j < new_on.len() ==> (#[trigger] new_on[j] <==> j == i),
{
}

/// A radio button with a `~`-marked label.
#[derive(Clone, Copy, Debug, Default)]
pub struct RadioButtonWidget;

impl RadioButtonWidget {
    pub fn measure(text: &str) -> (r: Vector)
        ensures
            r == mark_size(text@),
    {
        mark_size_exec(text)
    }

    /// Space clicks an enabled radio button; its hotkey focuses and clicks
    /// it.  A change of focus redraws it.  Whether a space click is handled
    /// is what the click answers.
    pub fn update(event: Event, enabled: bool, text: &str) -> (r: (bool, WidgetAction))
        ensures
            r == (if is_focus_change(event) {
                (false, WidgetAction::Redraw)
            } else if enabled && event == Event::Key(Key::Char(' ')) {
                (false, WidgetAction::Click)
            } else if enabled && hotkey_hit(event, label_spec(text@)) {
                (true, WidgetAction::FocusAndClick)
            } else {
                (false, WidgetAction::Nothing)
            }),
    {
        if matches!(event, Event::Cmd(0u16)) || matches!(event, Event::Cmd(1u16)) {
            return (false, WidgetAction::Redraw);
        }
        if !enabled {
            return (false, WidgetAction::Nothing);
        }
        if matches!(event, Event::Key(Key::Char(' '))) {
            (false, WidgetAction::Click)
        } else if hotkey_hit_exec(event, text) {
            (true, WidgetAction::FocusAndClick)
        } else {
            (false, WidgetAction::Nothing)
        }
    }
}

} // verus!
