//! Keyboard input: which key drives which control, and the state of the controls.
use vstd::prelude::*;
use vstd::string::*;

verus! {

/// One of the game's controls.
#[derive(Clone, Copy, PartialEq, Eq, Structural, Debug)]
pub enum Control {
    /// Arrow left, `a` or `A`
    Left,
    /// Arrow right, `d` or `D`
    Right,
    /// Arrow up, `w` or `W`
    Up,
    /// Arrow down, `s` or `S`
    Down,
    /// The space bar
    Space,
    /// The escape key
    Escape,
}

/// Represents the state of player input.
#[derive(Clone, Copy, PartialEq, Eq, Structural, Debug)]
pub struct InputState {
    /// Whether the left arrow or A key is pressed
    pub left_pressed: bool,
    /// Whether the right arrow or D key is pressed
    pub right_pressed: bool,
    /// Whether the up arrow or W key is pressed
    pub up_pressed: bool,
    /// Whether the down arrow or S key is pressed
    pub down_pressed: bool,
    /// Whether the space key is pressed
    pub space_pressed: bool,
    /// Whether the escape key is pressed
    pub escape_pressed: bool,
}

/// The state with no key pressed.
pub open spec fn released_state() -> InputState {
    InputState {
        left_pressed: false,
        right_pressed: false,
        up_pressed: false,
        down_pressed: false,
        space_pressed: false,
        escape_pressed: false,
    }
}

/// The control that a key (named as `KeyboardEvent.key` names it) drives, if any.
pub open spec fn key_control(key: Seq<char>) -> Option<Control> {
    if key == "ArrowLeft"@ || key == "a"@ || key == "A"@ {
        Some(Control::Left)
    } else if key == "ArrowRight"@ || key == "d"@ || key == "D"@ {
        Some(Control::Right)
    } else if key == "ArrowUp"@ || key == "w"@ || key == "W"@ {
        Some(Control::Up)
    } else if key == "ArrowDown"@ || key == "s"@ || key == "S"@ {
        Some(Control::Down)
    } else if key == " "@ {
        Some(Control::Space)
    } else if key == "Escape"@ {
        Some(Control::Escape)
    } else {
        None
    }
}

/// Whether a key's default browser action (scrolling) is suppressed:
/// the arrow keys and the space bar.
pub open spec fn suppresses_default(key: Seq<char>) -> bool {
    "Arrow"@.is_prefix_of(key) || key == " "@
}

impl InputState {
    /// Whether `control` is pressed in this state.
    pub open spec fn pressed(self, control: Control) -> bool {
        match control {
            Control::Left => self.left_pressed,
            Control::Right => self.right_pressed,
            Control::Up => self.up_pressed,
            Control::Down => self.down_pressed,
            Control::Space => self.space_pressed,
            Control::Escape => self.escape_pressed,
        }
    }

    /// This state with `control` set to `value` and every other control kept.
    pub open spec fn with(self, control: Control, value: bool) -> InputState {
        match control {
            Control::Left => InputState { left_pressed: value, ..self },
            Control::Right => InputState { right_pressed: value, ..self },
            Control::Up => InputState { up_pressed: value, ..self },
            Control::Down => InputState { down_pressed: value, ..self },
            Control::Space => InputState { space_pressed: value, ..self },
            Control::Escape => InputState { escape_pressed: value, ..self },
        }
    }

    /// This state after a key went down (`pressed`) or up (`!pressed`).
    pub open spec fn after_key(self, key: Seq<char>, pressed: bool) -> InputState {
        match key_control(key) {
            Some(control) => self.with(control, pressed),
            None => self,
        }
    }

    /// The state with no key pressed.
    pub fn new() -> (state: InputState)
        ensures
            state == released_state(),
    {
        InputState {
            left_pressed: false,
            right_pressed: false,
            up_pressed: false,
            down_pressed: false,
            space_pressed: false,
            escape_pressed: false,
        }
    }

    /// Whether `control` is pressed.
    pub fn is_pressed(&self, control: Control) -> (b: bool)
        ensures
            b == self.pressed(control),
    {
        match control {
            Control::Left => self.left_pressed,
            Control::Right => self.right_pressed,
            Control::Up => self.up_pressed,
            Control::Down => self.down_pressed,
            Control::Space => self.space_pressed,
            Control::Escape => self.escape_pressed,
        }
    }

    /// Sets `control` to `value`, keeping the other controls.
    pub fn set(&mut self, control: Control, value: bool)
        ensures
            *final(self) == old(self).with(control, value),
    {
        match control {
            Control::Left => self.left_pressed = value,
            Control::Right => self.right_pressed = value,
            Control::Up => self.up_pressed = value,
            Control::Down => self.down_pressed = value,
            Control::Space => self.space_pressed = value,
            Control::Escape => self.escape_pressed = value,
        }
    }

    /// Records a key going down (`pressed`) or up (`!pressed`): the control that the key
    /// drives takes the value `pressed`; a key that drives no control changes nothing.
    pub fn handle_key(&mut self, key: &str, pressed: bool)
        ensures
            *final(self) == old(self).after_key(key@, pressed),
    {
        match control_for_key(key) {
            Some(control) => self.set(control, pressed),
            None => {},
        }
    }
}

impl Default for InputState {
    /// The state with no key pressed.
    fn default() -> (state: InputState)
        ensures
            state == released_state(),
    {
        InputState::new()
    }
}

/// Whether two strings hold the same characters.
fn same_text(a: &str, b: &str) -> (same: bool)
    ensures
        same == (a@ == b@),
{
    let n = a.unicode_len();
    if n != b.unicode_len() {
        return false;
    }
    let mut i: usize = 0;
    while i < n
        invariant
            n == a@.len(),
            n == b@.len(),
            i <= n,
            forall|j: int| 0 <= j < i ==> a@[j] == b@[j],
        decreases n - i,
    {
        if a.get_char(i) != b.get_char(i) {
            return false;
        }
        i = i + 1;
    }
    assert(a@ =~= b@);
    true
}

/// Whether `s` starts with the characters of `prefix`.
fn starts_with_text(s: &str, prefix: &str) -> (starts: bool)
    ensures
        starts == prefix@.is_prefix_of(s@),
{
    let n = prefix.unicode_len();
    if n > s.unicode_len() {
        return false;
    }
    let mut i: usize = 0;
    while i < n
        invariant
            n == prefix@.len(),
            n <= s@.len(),
            i <= n,
            forall|j: int| 0 <= j < i ==> prefix@[j] == s@[j],
        decreases n - i,
    {
        if prefix.get_char(i) != s.get_char(i) {
            assert(prefix@[i as int] != s@.subrange(0, n as int)[i as int]);
            return false;
        }
        i = i + 1;
    }
    assert(prefix@ =~= s@.subrange(0, n as int));
    true
}

/// The control that `key` drives, if any.
pub fn control_for_key(key: &str) -> (control: Option<Control>)
    ensures
        control == key_control(key@),
{
    if same_text(key, "ArrowLeft") || same_text(key, "a") || same_text(key, "A") {
        Some(Control::Left)
    } else if same_text(key, "ArrowRight") || same_text(key, "d") || same_text(key, "D") {
        Some(Control::Right)
    } else if same_text(key, "ArrowUp") || same_text(key, "w") || same_text(key, "W") {
        Some(Control::Up)
    } else if same_text(key, "ArrowDown") || same_text(key, "s") || same_text(key, "S") {
        Some(Control::Down)
    } else if same_text(key, " ") {
        Some(Control::Space)
    } else if same_text(key, "Escape") {
        Some(Control::Escape)
    } else {
        None
    }
}

/// Whether the browser's default action for `key` is to be prevented
/// (arrow keys and the space bar, which would otherwise scroll the page).
pub fn prevents_default(key: &str) -> (prevent: bool)
    ensures
        prevent == suppresses_default(key@),
{
    starts_with_text(key, "Arrow") || same_text(key, " ")
}

/// A key going up after it went down leaves the controls as they were,
/// provided the control it drives was not held before.
pub proof fn lemma_release_undoes_press(state: InputState, key: Seq<char>)
    requires
        key_control(key) is Some ==> !state.pressed(key_control(key)->0),
    ensures
        state.after_key(key, true).after_key(key, false) == state,
{
}

/// A key event changes the control that the key drives and no other.
pub proof fn lemma_key_changes_only_its_control(
    state: InputState,
    key: Seq<char>,
    pressed: bool,
    other: Control,
)
    requires
        key_control(key) != Some(other),
    ensures
        state.after_key(key, pressed).pressed(other) == state.pressed(other),
{
}

/// After a key event the control that the key drives holds the event's value.
pub proof fn lemma_key_sets_its_control(state: InputState, key: Seq<char>, pressed: bool)
    requires
        key_control(key) is Some,
    ensures
        state.after_key(key, pressed).pressed(key_control(key)->0) == pressed,
{
}

/// Each control is its own field of the input state: reading a control reads its field, and
/// setting it sets that field and no other.
pub proof fn lemma_controls_are_fields(state: InputState, value: bool)
    ensures
        state.pressed(Control::Left) == state.left_pressed,
        state.pressed(Control::Right) == state.right_pressed,
        state.pressed(Control::Up) == state.up_pressed,
        state.pressed(Control::Down) == state.down_pressed,
        state.pressed(Control::Space) == state.space_pressed,
        state.pressed(Control::Escape) == state.escape_pressed,
        state.with(Control::Left, value) == (InputState { left_pressed: value, ..state }),
        state.with(Control::Right, value) == (InputState { right_pressed: value, ..state }),
        state.with(Control::Up, value) == (InputState { up_pressed: value, ..state }),
        state.with(Control::Down, value) == (InputState { down_pressed: value, ..state }),
        state.with(Control::Space, value) == (InputState { space_pressed: value, ..state }),
        state.with(Control::Escape, value) == (InputState { escape_pressed: value, ..state }),
{
}

/// The key table: the arrow keys and the letters a/d/w/s (either case) drive the four
/// directions, the space bar and escape drive their own controls.
pub proof fn lemma_key_controls()
    ensures
        key_control("ArrowLeft"@) == Some(Control::Left),
        key_control("a"@) == Some(Control::Left),
        key_control("A"@) == Some(Control::Left),
        key_control("ArrowRight"@) == Some(Control::Right),
        key_control("d"@) == Some(Control::Right),
        key_control("D"@) == Some(Control::Right),
        key_control("ArrowUp"@) == Some(Control::Up),
        key_control("w"@) == Some(Control::Up),
        key_control("W"@) == Some(Control::Up),
        key_control("ArrowDown"@) == Some(Control::Down),
        key_control("s"@) == Some(Control::Down),
        key_control("S"@) == Some(Control::Down),
        key_control(" "@) == Some(Control::Space),
        key_control("Escape"@) == Some(Control::Escape),
{
    reveal_strlit("ArrowLeft");
    reveal_strlit("a");
    reveal_strlit("A");
    reveal_strlit("ArrowRight");
    reveal_strlit("d");
    reveal_strlit("D");
    reveal_strlit("ArrowUp");
    reveal_strlit("w");
    reveal_strlit("W");
    reveal_strlit("ArrowDown");
    reveal_strlit("s");
    reveal_strlit("S");
    reveal_strlit(" ");
    reveal_strlit("Escape");
    assert("ArrowLeft"@[5] == 'L');
    assert("ArrowRight"@[5] == 'R');
    assert("ArrowUp"@[5] == 'U');
    assert("ArrowDown"@[5] == 'D');
    assert("a"@[0] == 'a');
    assert("A"@[0] == 'A');
    assert("d"@[0] == 'd');
    assert("D"@[0] == 'D');
    assert("w"@[0] == 'w');
    assert("W"@[0] == 'W');
    assert("s"@[0] == 's');
    assert("S"@[0] == 'S');
    assert(" "@[0] == ' ');
    assert("ArrowLeft"@.len() == 9);
    assert("ArrowRight"@.len() == 10);
    assert("ArrowUp"@.len() == 7);
    assert("ArrowDown"@.len() == 9);
    assert("Escape"@.len() == 6);
    assert("a"@.len() == 1);
    assert("A"@.len() == 1);
    assert("d"@.len() == 1);
    assert("D"@.len() == 1);
    assert("w"@.len() == 1);
    assert("W"@.len() == 1);
    assert("s"@.len() == 1);
    assert("S"@.len() == 1);
    assert(" "@.len() == 1);
}

/// Each key sets the field of the direction or button it names, and only that field.
pub proof fn lemma_key_table(state: InputState, pressed: bool)
    ensures
        state.after_key("ArrowLeft"@, pressed) == (InputState { left_pressed: pressed, ..state }),
        state.after_key("a"@, pressed) == (InputState { left_pressed: pressed, ..state }),
        state.after_key("A"@, pressed) == (InputState { left_pressed: pressed, ..state }),
        state.after_key("ArrowRight"@, pressed) == (InputState { right_pressed: pressed, ..state }),
        state.after_key("d"@, pressed) == (InputState { right_pressed: pressed, ..state }),
        state.after_key("D"@, pressed) == (InputState { right_pressed: pressed, ..state }),
        state.after_key("ArrowUp"@, pressed) == (InputState { up_pressed: pressed, ..state }),
        state.after_key("w"@, pressed) == (InputState { up_pressed: pressed, ..state }),
        state.after_key("W"@, pressed) == (InputState { up_pressed: pressed, ..state }),
        state.after_key("ArrowDown"@, pressed) == (InputState { down_pressed: pressed, ..state }),
        state.after_key("s"@, pressed) == (InputState { down_pressed: pressed, ..state }),
        state.after_key("S"@, pressed) == (InputState { down_pressed: pressed, ..state }),
        state.after_key(" "@, pressed) == (InputState { space_pressed: pressed, ..state }),
        state.after_key("Escape"@, pressed) == (InputState { escape_pressed: pressed, ..state }),
{
    lemma_key_controls();
}

} // verus!
