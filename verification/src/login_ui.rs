//! The login screen: what is typed into it, what is clicked, and what it shows.
//!
//! Positions on the screen are compared and nothing else, so they are held as
//! integers that are ordered as the coordinates are.

use embedded_graphics::mono_font::ascii;
use vstd::prelude::*;

use crate::command::pairs;
use crate::login::USER_CONFIGURED;
use crate::text::{chars_of, opt_text, same_text, texts};

verus! {

pub const BTN_LEFT: u32 = 272;

pub const KEY_BACKSPACE: u32 = 14;

pub const KEY_TAB: u32 = 15;

pub const KEY_ENTER: u32 = 28;

/// How long the caret stays on, and off, in milliseconds.
pub const BLINK_MS: u64 = 500;

/// What typing goes into.
#[derive(Clone, Copy, Debug, PartialEq, Eq, Structural)]
pub enum Focus {
    Username,
    Password,
    Nothing,
}

/// What lies under the pointer.
#[derive(Clone, Copy, Debug, PartialEq, Eq, Structural)]
pub enum Hit {
    Username,
    Password,
    SessionToggle,
    SessionOption(usize),
    KeyboardToggle,
    KeyboardOption(usize),
    LoginButton,
    Nothing,
}

/// Everything that the login screen shows.
pub struct LoginUiState {
    pub width: u32,
    pub height: u32,
    pub username: String,
    pub password: String,
    pub focus: Focus,
    pub sessions: Vec<String>,
    pub selected_session: usize,
    pub session_dropdown_open: bool,
    /// The keyboard layouts on offer: code, and name.
    pub keyboard_layouts: Vec<(String, String)>,
    pub selected_layout: usize,
    pub keyboard_dropdown_open: bool,
    pub error_msg: Option<String>,
    pub cursor_pos: (i32, i32),
    pub caret_blink_on: bool,
}

/// A [`LoginUiState`] as plain text.
#[verifier::ext_equal]
pub struct UiView {
    pub width: u32,
    pub height: u32,
    pub username: Seq<char>,
    pub password: Seq<char>,
    pub focus: Focus,
    pub sessions: Seq<Seq<char>>,
    pub selected_session: usize,
    pub session_dropdown_open: bool,
    pub keyboard_layouts: Seq<(Seq<char>, Seq<char>)>,
    pub selected_layout: usize,
    pub keyboard_dropdown_open: bool,
    pub error_msg: Option<Seq<char>>,
    pub cursor_pos: (i32, i32),
    pub caret_blink_on: bool,
}

impl View for LoginUiState {
    type V = UiView;

    open spec fn view(&self) -> UiView {
        UiView {
            width: self.width,
            height: self.height,
            username: self.username@,
            password: self.password@,
            focus: self.focus,
            sessions: texts(self.sessions@),
            selected_session: self.selected_session,
            session_dropdown_open: self.session_dropdown_open,
            keyboard_layouts: pairs(self.keyboard_layouts@),
            selected_layout: self.selected_layout,
            keyboard_dropdown_open: self.keyboard_dropdown_open,
            error_msg: opt_text(self.error_msg),
            cursor_pos: self.cursor_pos,
            caret_blink_on: self.caret_blink_on,
        }
    }
}

impl Clone for LoginUiState {
    fn clone(&self) -> (r: Self)
        ensures
            r@ == self@,
    {
        let mut sessions: Vec<String> = Vec::new();
        let mut i: usize = 0;
        while i < self.sessions.len()
            invariant
                i <= self.sessions@.len(),
                sessions@.len() == i,
                forall|j: int| 0 <= j < i ==> (#[trigger] sessions@[j])@ == self.sessions@[j]@,
            decreases self.sessions@.len() - i,
        {
            sessions.push(self.sessions[i].clone());
            i += 1;
        }
        let mut keyboard_layouts: Vec<(String, String)> = Vec::new();
        let mut k: usize = 0;
        while k < self.keyboard_layouts.len()
            invariant
                k <= self.keyboard_layouts@.len(),
                keyboard_layouts@.len() == k,
                forall|j: int|
                    0 <= j < k ==> (#[trigger] keyboard_layouts@[j]).0@
                        == self.keyboard_layouts@[j].0@ && keyboard_layouts@[j].1@
                        == self.keyboard_layouts@[j].1@,
            decreases self.keyboard_layouts@.len() - k,
        {
            keyboard_layouts.push(
                (self.keyboard_layouts[k].0.clone(), self.keyboard_layouts[k].1.clone()),
            );
            k += 1;
        }
        let error_msg = match &self.error_msg {
            Some(m) => Some(m.clone()),
            None => None,
        };
        let r = LoginUiState {
            width: self.width,
            height: self.height,
            username: self.username.clone(),
            password: self.password.clone(),
            focus: self.focus,
            sessions,
            selected_session: self.selected_session,
            session_dropdown_open: self.session_dropdown_open,
            keyboard_layouts,
            selected_layout: self.selected_layout,
            keyboard_dropdown_open: self.keyboard_dropdown_open,
            error_msg,
            cursor_pos: self.cursor_pos,
            caret_blink_on: self.caret_blink_on,
        };
        assert(r@ =~= self@);
        r
    }
}

/// What a user signs in with.
pub struct Credentials {
    pub username: String,
    pub password: String,
    pub session: String,
}

/// [`Credentials`] as plain text.
#[verifier::ext_equal]
pub struct CredentialsView {
    pub username: Seq<char>,
    pub password: Seq<char>,
    pub session: Seq<char>,
}

impl View for Credentials {
    type V = CredentialsView;

    open spec fn view(&self) -> CredentialsView {
        CredentialsView {
            username: self.username@,
            password: self.password@,
            session: self.session@,
        }
    }
}

/// What an optional sign-in says.
pub open spec fn submitted(c: Option<Credentials>) -> Option<CredentialsView> {
    match c {
        Some(c) => Some(c@),
        None => None,
    }
}

/// Whether a character is a control code.
pub open spec fn is_control(c: char) -> bool {
    (c as u32) < 0x20 || 0x7f <= c as u32 <= 0x9f
}

/// Whether a key's text is something to type: some text, without control codes.
pub open spec fn is_typed(text: Seq<char>) -> bool {
    text.len() > 0 && forall|i: int| 0 <= i < text.len() ==> !is_control(#[trigger] text[i])
}

impl UiView {
    /// The selections point at something.
    pub open spec fn wf(self) -> bool {
        &&& self.selected_session < self.sessions.len()
        &&& self.selected_layout < self.keyboard_layouts.len()
    }

    /// What the sign-in button sends: the last session stands for the one that
    /// the user has configured.
    pub open spec fn credentials(self) -> CredentialsView {
        CredentialsView {
            username: self.username,
            password: self.password,
            session: if self.selected_session == self.sessions.len() - 1 {
                USER_CONFIGURED@
            } else {
                self.sessions[self.selected_session as int]
            },
        }
    }

    /// The screen once `text` was typed.
    pub open spec fn typed(self, text: Seq<char>) -> UiView {
        match self.focus {
            Focus::Username => UiView { username: self.username + text, ..self },
            Focus::Password => UiView { password: self.password + text, ..self },
            Focus::Nothing => self,
        }
    }

    /// The screen once the last character was rubbed out.
    pub open spec fn rubbed_out(self) -> UiView {
        match self.focus {
            Focus::Username => if self.username.len() > 0 {
                UiView { username: self.username.drop_last(), ..self }
            } else {
                self
            },
            Focus::Password => if self.password.len() > 0 {
                UiView { password: self.password.drop_last(), ..self }
            } else {
                self
            },
            Focus::Nothing => self,
        }
    }

    /// The screen once the focus has moved on.
    pub open spec fn tabbed(self) -> UiView {
        UiView {
            focus: if self.focus == Focus::Username {
                Focus::Password
            } else {
                Focus::Username
            },
            ..self
        }
    }

    /// The screen once a key was pressed.
    pub open spec fn key_pressed(self, keycode: u32, text: Seq<char>) -> UiView {
        if keycode == KEY_BACKSPACE {
            self.rubbed_out()
        } else if keycode == KEY_TAB {
            self.tabbed()
        } else if keycode != KEY_ENTER && is_typed(text) {
            self.typed(text)
        } else {
            self
        }
    }

    /// Whether a list is open over the rest of the screen.
    pub open spec fn list_open(self) -> bool {
        self.session_dropdown_open || self.keyboard_dropdown_open
    }

    /// The screen once something on it was clicked. While a list is open a click
    /// chooses from it or closes it, and reaches nothing else.
    pub open spec fn clicked(self, hit: Hit) -> UiView {
        if self.list_open() {
            let chosen = match hit {
                Hit::SessionOption(i) => UiView { selected_session: i, ..self },
                Hit::KeyboardOption(i) => UiView { selected_layout: i, ..self },
                _ => self,
            };
            UiView { session_dropdown_open: false, keyboard_dropdown_open: false, ..chosen }
        } else {
            match hit {
                Hit::Username => UiView { focus: Focus::Username, ..self },
                Hit::Password => UiView { focus: Focus::Password, ..self },
                Hit::SessionToggle => UiView { session_dropdown_open: true, ..self },
                Hit::KeyboardToggle => UiView { keyboard_dropdown_open: true, ..self },
                _ => self,
            }
        }
    }

    /// Whether a click signs in.
    pub open spec fn click_submits(self, hit: Hit) -> bool {
        !self.list_open() && hit == Hit::LoginButton
    }
}

impl LoginUiState {
    /// The screen as it comes up, with the pointer at `cursor_pos`.
    pub fn new(width: u32, height: u32, sessions: Vec<String>, cursor_pos: (i32, i32)) -> (state:
        LoginUiState)
        ensures
            state@ == (UiView {
                width,
                height,
                username: seq![],
                password: seq![],
                focus: Focus::Username,
                sessions: texts(sessions@),
                selected_session: 0,
                session_dropdown_open: false,
                keyboard_layouts: seq![("us"@, "English (US)"@)],
                selected_layout: 0,
                keyboard_dropdown_open: false,
                error_msg: None,
                cursor_pos,
                caret_blink_on: true,
            }),
            sessions@.len() > 0 ==> state@.wf(),
    {
        let mut keyboard_layouts: Vec<(String, String)> = Vec::new();
        keyboard_layouts.push(("us".to_string(), "English (US)".to_string()));
        assert(pairs(keyboard_layouts@) =~= seq![("us"@, "English (US)"@)]);
        LoginUiState {
            width,
            height,
            username: String::new(),
            password: String::new(),
            focus: Focus::Username,
            sessions,
            selected_session: 0,
            session_dropdown_open: false,
            keyboard_layouts,
            selected_layout: 0,
            keyboard_dropdown_open: false,
            error_msg: None,
            cursor_pos,
            caret_blink_on: true,
        }
    }
}

/// A rectangle: what lies from its left and top edges up to, and not on, its
/// right and bottom ones.
#[derive(Clone, Copy, Debug)]
pub struct Rect {
    pub left: i32,
    pub top: i32,
    pub right: i32,
    pub bottom: i32,
}

impl Rect {
    pub open spec fn holds(self, x: i32, y: i32) -> bool {
        self.left <= x < self.right && self.top <= y < self.bottom
    }
}

pub fn rect_contains(rect: &Rect, x: i32, y: i32) -> (r: bool)
    ensures
        r == rect.holds(x, y),
{
    x >= rect.left && x < rect.right && y >= rect.top && y < rect.bottom
}

/// Where things are on the screen.
#[derive(Clone)]
pub struct Layout {
    pub username_field: Rect,
    pub password_field: Rect,
    pub session_box: Rect,
    /// The rows of the open session list, on top of everything else.
    pub session_options: Vec<Rect>,
    pub login_button: Rect,
}

impl Layout {
    /// What lies at a point where no row of an open list does.
    pub open spec fn below_list(self, x: i32, y: i32) -> Hit {
        if self.session_box.holds(x, y) {
            Hit::SessionToggle
        } else if self.username_field.holds(x, y) {
            Hit::Username
        } else if self.password_field.holds(x, y) {
            Hit::Password
        } else if self.login_button.holds(x, y) {
            Hit::LoginButton
        } else {
            Hit::Nothing
        }
    }

    /// Whether `hit` is what lies at a point: the first row of an open list that
    /// holds it, and only then what is below.
    pub open spec fn lies_at(self, x: i32, y: i32, hit: Hit) -> bool {
        match hit {
            Hit::SessionOption(i) => {
                &&& i < self.session_options@.len()
                &&& self.session_options@[i as int].holds(x, y)
                &&& forall|j: int|
                    0 <= j < i ==> !(#[trigger] self.session_options@[j]).holds(x, y)
            },
            _ => {
                &&& hit == self.below_list(x, y)
                &&& forall|j: int|
                    0 <= j < self.session_options@.len() ==> !(
                    #[trigger] self.session_options@[j]).holds(x, y)
            },
        }
    }

    pub fn hit_test(&self, x: i32, y: i32) -> (hit: Hit)
        ensures
            self.lies_at(x, y, hit),
    {
        let mut i: usize = 0;
        while i < self.session_options.len()
            invariant
                i <= self.session_options@.len(),
                forall|j: int|
                    0 <= j < i ==> !(#[trigger] self.session_options@[j]).holds(x, y),
            decreases self.session_options@.len() - i,
        {
            if rect_contains(&self.session_options[i], x, y) {
                return Hit::SessionOption(i);
            }
            i += 1;
        }
        if rect_contains(&self.session_box, x, y) {
            return Hit::SessionToggle;
        }
        if rect_contains(&self.username_field, x, y) {
            return Hit::Username;
        }
        if rect_contains(&self.password_field, x, y) {
            return Hit::Password;
        }
        if rect_contains(&self.login_button, x, y) {
            return Hit::LoginButton;
        }
        Hit::Nothing
    }
}

/// A point has one thing under it.
pub proof fn law_one_thing_lies_at_a_point(layout: Layout, x: i32, y: i32, a: Hit, b: Hit)
    requires
        layout.lies_at(x, y, a),
        layout.lies_at(x, y, b),
    ensures
        a == b,
{
    match (a, b) {
        (Hit::SessionOption(i), Hit::SessionOption(j)) => {
            assert(layout.session_options@[i as int].holds(x, y));
            assert(layout.session_options@[j as int].holds(x, y));
        },
        (Hit::SessionOption(i), _) => {
            assert(layout.session_options@[i as int].holds(x, y));
        },
        (_, Hit::SessionOption(j)) => {
            assert(layout.session_options@[j as int].holds(x, y));
        },
        _ => {},
    }
}

/// What signing in sends.
pub fn try_submit(state: &LoginUiState) -> (c: Credentials)
    requires
        state@.wf(),
    ensures
        c@ == state@.credentials(),
{
    let session = if state.selected_session == state.sessions.len() - 1 {
        USER_CONFIGURED.to_string()
    } else {
        state.sessions[state.selected_session].clone()
    };
    Credentials { username: state.username.clone(), password: state.password.clone(), session }
}

/// Takes the answer to a sign-in, and says whether the screen is done. A refusal
/// is shown, and the password is forgotten.
pub fn login_answered(state: &mut LoginUiState, answer: Result<(), String>) -> (done: bool)
    ensures
        done == (answer is Ok),
        match answer {
            Ok(_) => final(state)@ == old(state)@,
            Err(e) => final(state)@ == (UiView {
                password: seq![],
                error_msg: Some(e@),
                ..old(state)@
            }),
        },
{
    match answer {
        Ok(_) => true,
        Err(e) => {
            state.password.clear();
            state.error_msg = Some(e);
            assert(state@ =~= UiView { password: seq![], error_msg: Some(e@), ..old(state)@ });
            false
        },
    }
}

/// A click on what lies under the pointer; the result is what to sign in with,
/// where the click asks for that.
pub fn handle_click(state: &mut LoginUiState, hit: Hit) -> (c: Option<Credentials>)
    requires
        old(state)@.wf(),
        hit matches Hit::SessionOption(i) ==> i < old(state)@.sessions.len(),
        hit matches Hit::KeyboardOption(i) ==> i < old(state)@.keyboard_layouts.len(),
    ensures
        final(state)@ == old(state)@.clicked(hit),
        final(state)@.wf(),
        submitted(c) == if old(state)@.click_submits(hit) {
            Some(old(state)@.credentials())
        } else {
            None
        },
{
    if state.session_dropdown_open || state.keyboard_dropdown_open {
        match hit {
            Hit::SessionOption(i) => {
                state.selected_session = i;
            },
            Hit::KeyboardOption(i) => {
                state.selected_layout = i;
            },
            _ => {},
        }
        state.session_dropdown_open = false;
        state.keyboard_dropdown_open = false;
        return None;
    }
    match hit {
        Hit::Username => {
            state.focus = Focus::Username;
        },
        Hit::Password => {
            state.focus = Focus::Password;
        },
        Hit::SessionToggle => {
            state.session_dropdown_open = true;
        },
        Hit::KeyboardToggle => {
            state.keyboard_dropdown_open = true;
        },
        Hit::LoginButton => {
            return Some(try_submit(state));
        },
        _ => {},
    }
    None
}

fn types_something(text: &str) -> (r: bool)
    ensures
        r == is_typed(text@),
{
    let chars = chars_of(text);
    let mut i: usize = 0;
    while i < chars.len()
        invariant
            chars@ == text@,
            i <= chars@.len(),
            forall|j: int| 0 <= j < i ==> !is_control(#[trigger] text@[j]),
        decreases chars@.len() - i,
    {
        let c: u32 = chars[i] as u32;
        if c < 0x20 || (0x7f <= c && c <= 0x9f) {
            assert(is_control(text@[i as int]));
            return false;
        }
        i += 1;
    }
    chars.len() > 0
}

/// A key that was pressed, and the text that the keyboard layout gives it; the
/// result is what to sign in with, where the key asks for that.
pub fn handle_key(state: &mut LoginUiState, keycode: u32, text: &str) -> (c: Option<Credentials>)
    requires
        old(state)@.wf(),
    ensures
        final(state)@ == old(state)@.key_pressed(keycode, text@),
        final(state)@.wf(),
        submitted(c) == if keycode == KEY_ENTER {
            Some(old(state)@.credentials())
        } else {
            None
        },
{
    if keycode == KEY_BACKSPACE {
        match state.focus {
            Focus::Username => {
                let _ = state.username.pop();
            },
            Focus::Password => {
                let _ = state.password.pop();
            },
            Focus::Nothing => {},
        }
        assert(state@ =~= old(state)@.rubbed_out());
        None
    } else if keycode == KEY_TAB {
        state.focus = match state.focus {
            Focus::Username => Focus::Password,
            _ => Focus::Username,
        };
        None
    } else if keycode == KEY_ENTER {
        Some(try_submit(state))
    } else {
        if types_something(text) {
            match state.focus {
                Focus::Username => {
                    state.username.append(text);
                },
                Focus::Password => {
                    state.password.append(text);
                },
                Focus::Nothing => {},
            }
        }
        None
    }
}

/// Something that the user did.
pub enum UiEvent {
    /// The pointer is now here.
    MouseMove { x: i32, y: i32 },
    MouseButton { button: u32, pressed: bool },
    MouseAxis,
    /// A key, and the text that the keyboard layout gives it.
    KeyboardKey { keycode: u32, pressed: bool, text: String },
}

impl UiView {
    /// Whether the screen can be the one after `event`, given where things are
    /// on it.
    pub open spec fn after_event(self, layout: Layout, event: UiEvent, next: UiView) -> bool {
        match event {
            UiEvent::MouseMove { x, y } => next == (UiView { cursor_pos: (x, y), ..self }),
            UiEvent::MouseButton { button, pressed } => if button == BTN_LEFT && pressed {
                exists|hit: Hit|
                    #[trigger] layout.lies_at(self.cursor_pos.0, self.cursor_pos.1, hit) && next
                        == self.clicked(hit)
            } else {
                next == self
            },
            UiEvent::MouseAxis => next == self,
            UiEvent::KeyboardKey { keycode, pressed, text } => if pressed {
                next == self.key_pressed(keycode, text@)
            } else {
                next == self
            },
        }
    }

    /// Whether an event signs in.
    pub open spec fn event_submits(self, layout: Layout, event: UiEvent) -> bool {
        match event {
            UiEvent::MouseButton { button, pressed } => {
                &&& button == BTN_LEFT && pressed
                &&& !self.list_open()
                &&& layout.lies_at(self.cursor_pos.0, self.cursor_pos.1, Hit::LoginButton)
            },
            UiEvent::KeyboardKey { keycode, pressed, .. } => pressed && keycode == KEY_ENTER,
            _ => false,
        }
    }
}

/// Something that the user did, on a screen laid out as `layout`; the result is
/// what to sign in with, where the user asks for that.
pub fn handle_input(state: &mut LoginUiState, layout: &Layout, event: UiEvent) -> (c: Option<
    Credentials,
>)
    requires
        old(state)@.wf(),
        layout.session_options@.len() <= old(state)@.sessions.len(),
    ensures
        old(state)@.after_event(*layout, event, final(state)@),
        final(state)@.wf(),
        submitted(c) == if old(state)@.event_submits(*layout, event) {
            Some(old(state)@.credentials())
        } else {
            None
        },
{
    match event {
        UiEvent::MouseMove { x, y } => {
            state.cursor_pos = (x, y);
            None
        },
        UiEvent::MouseButton { button, pressed } => {
            if button == BTN_LEFT && pressed {
                let hit = layout.hit_test(state.cursor_pos.0, state.cursor_pos.1);
                proof {
                    let (x, y) = state@.cursor_pos;
                    if layout.lies_at(x, y, Hit::LoginButton) {
                        law_one_thing_lies_at_a_point(*layout, x, y, hit, Hit::LoginButton);
                    }
                }
                handle_click(state, hit)
            } else {
                None
            }
        },
        UiEvent::MouseAxis => None,
        UiEvent::KeyboardKey { keycode, pressed, text } => {
            if pressed {
                handle_key(state, keycode, text.as_str())
            } else {
                None
            }
        },
    }
}

/// The code of the keyboard layout to switch to, where another than `current` is
/// selected.
pub fn layout_to_switch_to(state: &LoginUiState, current: &str) -> (code: Option<String>)
    requires
        state@.wf(),
    ensures
        ({
            let selected = state@.keyboard_layouts[state@.selected_layout as int].0;
            match code {
                Some(c) => c@ == selected && selected != current@,
                None => selected == current@,
            }
        }),
{
    let code = &state.keyboard_layouts[state.selected_layout].0;
    if same_text(code.as_str(), current) {
        None
    } else {
        Some(code.clone())
    }
}

/// Turns the caret on or off when it has been as it is for long enough, and says
/// whether it did.
pub fn blink(state: &mut LoginUiState, elapsed_ms: u64) -> (turned: bool)
    ensures
        turned == (elapsed_ms >= BLINK_MS),
        final(state)@ == (UiView {
            caret_blink_on: old(state)@.caret_blink_on != turned,
            ..old(state)@
        }),
{
    if elapsed_ms >= BLINK_MS {
        state.caret_blink_on = !state.caret_blink_on;
        true
    } else {
        false
    }
}

/// What a field shows: a password as one asterisk to the character.
pub open spec fn displayed(value: Seq<char>, masked: bool) -> Seq<char> {
    if masked {
        Seq::new(value.len(), |i: int| '*')
    } else {
        value
    }
}

/// What a field shows.
pub fn display_text(value: &str, masked: bool) -> (out: String)
    ensures
        out@ == displayed(value@, masked),
{
    if !masked {
        return value.to_string();
    }
    let chars = chars_of(value);
    let mut out = String::new();
    let mut i: usize = 0;
    while i < chars.len()
        invariant
            chars@ == value@,
            i <= chars@.len(),
            out@.len() == i,
            forall|j: int| 0 <= j < i ==> out@[j] == '*',
        decreases chars@.len() - i,
    {
        out.push('*');
        i += 1;
    }
    assert(out@ =~= displayed(value@, masked));
    out
}

/// A masked field gives nothing away but the length of what it holds.
pub proof fn law_masked_text_shows_the_length_only(a: Seq<char>, b: Seq<char>)
    requires
        a.len() == b.len(),
    ensures
        displayed(a, true) == displayed(b, true),
{
    assert(displayed(a, true) =~= displayed(b, true));
}

/// What is typed is rubbed out again, a character at a time.
pub proof fn law_rubbing_out_undoes_typing(ui: UiView, c: char)
    ensures
        ui.typed(seq![c]).rubbed_out() == ui,
{
    assert((ui.username + seq![c]).drop_last() =~= ui.username);
    assert((ui.password + seq![c]).drop_last() =~= ui.password);
    assert(ui.typed(seq![c]).rubbed_out() =~= ui);
}

/// A click on a row of the open session list and then on the sign-in button, or on
/// the enter key, sends the name that the row shows, for every row but the last;
/// the last sends the name that stands for what the user has configured. What was
/// typed is sent as it stands.
pub proof fn law_the_chosen_session_is_sent(ui: UiView, row: usize)
    requires
        ui.wf(),
        ui.session_dropdown_open,
        row < ui.sessions.len(),
    ensures
        ({
            let chosen = ui.clicked(Hit::SessionOption(row));
            &&& chosen.click_submits(Hit::LoginButton)
            &&& row < ui.sessions.len() - 1 ==> chosen.credentials().session
                == ui.sessions[row as int]
            &&& row == ui.sessions.len() - 1 ==> chosen.credentials().session == "user-configured"@
            &&& chosen.credentials().username == ui.username
            &&& chosen.credentials().password == ui.password
            &&& chosen.sessions == ui.sessions
            &&& chosen.wf()
        }),
{
}

/// Two screens that differ in which of two differently named presets is selected
/// send different sessions, and two that differ in what was typed send different
/// names or passwords.
pub proof fn law_other_choices_send_other_credentials(a: UiView, b: UiView)
    requires
        a.wf(),
        b.wf(),
    ensures
        a.sessions == b.sessions && a.selected_session < a.sessions.len() - 1 && b.selected_session
            < b.sessions.len() - 1 && a.sessions[a.selected_session as int]
            != b.sessions[b.selected_session as int] ==> a.credentials().session
            != b.credentials().session,
        a.username != b.username ==> a.credentials() != b.credentials(),
        a.password != b.password ==> a.credentials() != b.credentials(),
{
}

/// A key that types adds its text to the field that has the focus, and to no
/// other; the backspace key takes one character from it, and from no other; the
/// tab key goes from the name to the password and back; and the enter key changes
/// nothing.
pub proof fn law_keys_go_to_the_field_that_has_the_focus(ui: UiView, keycode: u32, text: Seq<char>)
    ensures
        ({
            let next = ui.key_pressed(keycode, text);
            let types = keycode != 14 && keycode != 15 && keycode != 28 && text.len() > 0 && (
            forall|i: int|
                0 <= i < text.len() ==> !((#[trigger] text[i]) as u32 <= 31 || 127 <= text[i] as u32
                    <= 159));
            &&& next.username == if ui.focus is Username && types {
                ui.username + text
            } else if ui.focus is Username && keycode == 14 && ui.username.len() > 0 {
                ui.username.take(ui.username.len() - 1)
            } else {
                ui.username
            }
            &&& next.password == if ui.focus is Password && types {
                ui.password + text
            } else if ui.focus is Password && keycode == 14 && ui.password.len() > 0 {
                ui.password.take(ui.password.len() - 1)
            } else {
                ui.password
            }
            &&& keycode != 15 ==> next.focus == ui.focus
            &&& keycode == 15 ==> (next.focus is Password <==> ui.focus is Username) && (
            next.focus is Username <==> !(ui.focus is Username))
            &&& next.sessions == ui.sessions && next.selected_session == ui.selected_session
            &&& next.keyboard_layouts == ui.keyboard_layouts && next.selected_layout
                == ui.selected_layout
            &&& next.session_dropdown_open == ui.session_dropdown_open
                && next.keyboard_dropdown_open == ui.keyboard_dropdown_open
            &&& next.error_msg == ui.error_msg && next.cursor_pos == ui.cursor_pos
        }),
{
    assert((forall|i: int|
        0 <= i < text.len() ==> !((#[trigger] text[i]) as u32 <= 31 || 127 <= text[i] as u32
            <= 159)) <==> (forall|i: int| 0 <= i < text.len() ==> !is_control(#[trigger] text[i])))
        by {
        if forall|i: int| 0 <= i < text.len() ==> !is_control(#[trigger] text[i]) {
            assert forall|i: int| 0 <= i < text.len() implies !((#[trigger] text[i]) as u32 <= 31
                || 127 <= text[i] as u32 <= 159) by {
                assert(!is_control(text[i]));
            }
        }
    }
    if ui.username.len() > 0 {
        assert(ui.username.drop_last() =~= ui.username.take(ui.username.len() - 1));
    }
    if ui.password.len() > 0 {
        assert(ui.password.drop_last() =~= ui.password.take(ui.password.len() - 1));
    }
}

/// What is typed into the fields of a fresh screen, the name first and the password
/// behind the tab key, is what signing in sends, with the first session where
/// there are others behind it.
pub proof fn law_signing_in_sends_what_was_typed(ui: UiView, name: Seq<char>, password: Seq<char>)
    requires
        ui.wf(),
        ui.focus is Username,
        ui.username.len() == 0,
        ui.password.len() == 0,
        ui.selected_session == 0,
        ui.sessions.len() > 1,
        is_typed(name),
        is_typed(password),
    ensures
        ui.key_pressed(16, name).key_pressed(15, seq![]).key_pressed(
            16,
            password,
        ).credentials() == (CredentialsView { username: name, password, session: ui.sessions[0] }),
{
    assert(ui.username + name =~= name);
    assert(ui.password + password =~= password);
}

/// A click with the left button inside a row of the open session list, and inside
/// none above it, selects that row; and one outside of all rows selects nothing,
/// wherever it is.
pub proof fn law_a_click_inside_a_row_selects_it(
    ui: UiView,
    layout: Layout,
    row: usize,
    next: UiView,
)
    requires
        ui.session_dropdown_open,
        ui.after_event(layout, (UiEvent::MouseButton { button: 272, pressed: true }), next),
        row < layout.session_options@.len(),
    ensures
        ({
            let (x, y) = ui.cursor_pos;
            let rows = layout.session_options@;
            &&& rows[row as int].left <= x && x < rows[row as int].right && rows[row as int].top
                <= y && y < rows[row as int].bottom && (forall|j: int|
                0 <= j < row ==> !((#[trigger] rows[j]).left <= x && x < rows[j].right
                    && rows[j].top <= y && y < rows[j].bottom)) ==> next.selected_session == row
            &&& (forall|j: int|
                0 <= j < rows.len() ==> !((#[trigger] rows[j]).left <= x && x < rows[j].right
                    && rows[j].top <= y && y < rows[j].bottom)) ==> next.selected_session
                == ui.selected_session
            &&& !next.session_dropdown_open && !next.keyboard_dropdown_open
            &&& next.username == ui.username && next.password == ui.password && next.focus
                == ui.focus && next.sessions == ui.sessions
        }),
{
    let (x, y) = ui.cursor_pos;
    let rows = layout.session_options@;
    let hit = choose|hit: Hit| #[trigger] layout.lies_at(x, y, hit) && next == ui.clicked(hit);
    if rows[row as int].holds(x, y) && (forall|j: int|
        0 <= j < row ==> !((#[trigger] rows[j]).left <= x && x < rows[j].right && rows[j].top <= y
            && y < rows[j].bottom)) {
        assert forall|j: int| 0 <= j < row implies !(#[trigger] rows[j]).holds(x, y) by {}
        assert(layout.lies_at(x, y, Hit::SessionOption(row)));
        law_one_thing_lies_at_a_point(layout, x, y, hit, Hit::SessionOption(row));
    }
    if forall|j: int|
        0 <= j < rows.len() ==> !((#[trigger] rows[j]).left <= x && x < rows[j].right && rows[j].top
            <= y && y < rows[j].bottom) {
        if let Hit::SessionOption(i) = hit {
            assert(rows[i as int].holds(x, y));
        }
    }
}

/// With no list open, a click inside a field gives it the focus, one inside the
/// session box opens its list, and one inside the button signs in, where none of
/// them covers another; a click that is not with the left button, and letting go
/// of a button, does nothing.
pub proof fn law_a_click_does_what_lies_under_it(
    ui: UiView,
    layout: Layout,
    next: UiView,
    pressed: bool,
    button: u32,
)
    requires
        !ui.session_dropdown_open && !ui.keyboard_dropdown_open,
        layout.session_options@.len() == 0,
        ui.after_event(layout, (UiEvent::MouseButton { button, pressed }), next),
    ensures
        ({
            let (x, y) = ui.cursor_pos;
            let within = |r: Rect| r.left <= x && x < r.right && r.top <= y && y < r.bottom;
            let left = pressed && button == 272;
            let on_box = within(layout.session_box);
            let on_name = within(layout.username_field) && !on_box;
            let on_password = within(layout.password_field) && !on_box && !on_name;
            let on_button = within(layout.login_button) && !on_box && !on_name && !on_password;
            &&& next.session_dropdown_open <==> left && on_box
            &&& next.focus == if left && on_name {
                Focus::Username
            } else if left && on_password {
                Focus::Password
            } else {
                ui.focus
            }
            &&& ui.event_submits(layout, UiEvent::MouseButton { button, pressed }) <==> left
                && on_button
            &&& next.username == ui.username && next.password == ui.password
            &&& next.sessions == ui.sessions && next.selected_session == ui.selected_session
        }),
{
    let (x, y) = ui.cursor_pos;
    if pressed && button == 272 {
        let hit = choose|hit: Hit| #[trigger] layout.lies_at(x, y, hit) && next == ui.clicked(hit);
        assert(layout.lies_at(x, y, layout.below_list(x, y)));
        law_one_thing_lies_at_a_point(layout, x, y, hit, layout.below_list(x, y));
    }
}

/// What a field shows is what it holds, or as many asterisks as it holds
/// characters.
pub proof fn law_fields_show_their_text_or_asterisks(value: Seq<char>, i: int)
    requires
        0 <= i < value.len(),
    ensures
        displayed(value, false) == value,
        displayed(value, true).len() == value.len(),
        displayed(value, true)[i] == '*',
{
}

/// While a list is open, no click signs in, and every click closes it.
pub proof fn law_open_list_takes_the_click(ui: UiView, hit: Hit)
    requires
        ui.list_open(),
    ensures
        !ui.click_submits(hit),
        !ui.clicked(hit).list_open(),
        ui.clicked(hit).focus == ui.focus,
{
}

/// The width of a character of embedded-graphics' `FONT_10X20`, in pixels: 10.
#[verifier::external_body]
fn big_char_width() -> (w: u32)
    ensures
        w == 10,
{
    ascii::FONT_10X20.character_size.width
}

/// The width of a character of embedded-graphics' `FONT_9X15`, in pixels: 9.
#[verifier::external_body]
fn small_char_width() -> (w: u32)
    ensures
        w == 9,
{
    ascii::FONT_9X15.character_size.width
}

/// The width of a text in pixels, in the big font or the small one.
pub open spec fn pixels(text: Seq<char>, big: bool) -> nat {
    if big {
        10 * text.len()
    } else {
        9 * text.len()
    }
}

/// The width of a text in pixels, in the big font or the small one.
pub fn text_width(text: &str, big: bool) -> (w: i32)
    requires
        pixels(text@, big) <= i32::MAX,
    ensures
        w == pixels(text@, big),
{
    let n: u32 = chars_of(text).len() as u32;
    let each: u32 = if big {
        big_char_width()
    } else {
        small_char_width()
    };
    assert(n == text@.len());
    (n * each) as i32
}

/// Where something of length `item` starts so that it stands in the middle of
/// what starts at `start` and is `extent` long. Half a pixel goes to the side
/// of the start.
pub open spec fn centered(start: int, extent: int, item: int) -> int {
    if extent >= item {
        start + (extent - item) / 2
    } else {
        start - (item - extent) / 2
    }
}

/// Where something of length `item` starts so that it stands in the middle.
pub fn center(start: i32, extent: i32, item: i32) -> (at: i32)
    requires
        i32::MIN <= extent - item <= i32::MAX,
        i32::MIN <= centered(start as int, extent as int, item as int) <= i32::MAX,
    ensures
        at == centered(start as int, extent as int, item as int),
{
    if extent >= item {
        start + (extent - item) / 2
    } else {
        (start as i64 - (item as i64 - extent as i64) / 2) as i32
    }
}

/// What is centred leaves as much room on one side as on the other, but for one
/// pixel.
pub proof fn law_centred_things_have_even_margins(start: int, extent: int, item: int)
    ensures
        ({
            let at = centered(start, extent, item);
            let before = at - start;
            let behind = (start + extent) - (at + item);
            -1 <= before - behind <= 1 && before + behind == extent - item
        }),
        extent >= item ==> centered(start, extent, item) - start <= (start + extent) - (centered(
            start,
            extent,
            item,
        ) + item),
{
}

/// Texts that stand side by side are as wide as both together, ten pixels to the
/// character in the big font and nine in the small one.
pub proof fn law_widths_add_up(a: Seq<char>, b: Seq<char>, big: bool, c: char)
    ensures
        pixels(a + b, big) == pixels(a, big) + pixels(b, big),
        pixels(seq![c], true) == 10,
        pixels(seq![c], false) == 9,
{
    if big {
        assert(10 * (a.len() + b.len()) == 10 * a.len() + 10 * b.len()) by (nonlinear_arith);
    } else {
        assert(9 * (a.len() + b.len()) == 9 * a.len() + 9 * b.len()) by (nonlinear_arith);
    }
}

/// Which of the pixels of a canvas a point is, where it is on the canvas.
pub open spec fn pixel_at(x: int, y: int, width: int, height: int) -> Option<int> {
    if 0 <= x < width && 0 <= y < height {
        Some(y * width + x)
    } else {
        None
    }
}

/// Which of the pixels of a canvas a point is, where it is on the canvas.
pub fn pixel_index(x: i32, y: i32, width: i32, height: i32) -> (index: Option<u64>)
    ensures
        match index {
            Some(i) => pixel_at(x as int, y as int, width as int, height as int) == Some(i as int),
            None => pixel_at(x as int, y as int, width as int, height as int) is None,
        },
{
    if x < 0 || y < 0 || x >= width || y >= height {
        return None;
    }
    assert(0 <= y * width <= 0x7fff_ffff * 0x7fff_ffff) by (nonlinear_arith)
        requires
            0 <= y <= 0x7fff_ffff,
            0 <= width <= 0x7fff_ffff,
    ;
    Some(y as u64 * width as u64 + x as u64)
}

/// A point on the canvas is one of its pixels, and no two points are the same
/// one.
pub proof fn law_pixels_are_in_range_and_distinct(
    x: int,
    y: int,
    u: int,
    v: int,
    width: int,
    height: int,
)
    requires
        pixel_at(x, y, width, height) is Some,
        pixel_at(u, v, width, height) is Some,
    ensures
        0 <= pixel_at(x, y, width, height)->Some_0 < width * height,
        pixel_at(x, y, width, height) == pixel_at(u, v, width, height) ==> x == u && y == v,
{
    assert(0 <= y * width + x < width * height) by (nonlinear_arith)
        requires
            0 <= x < width,
            0 <= y < height,
    ;
    if y * width + x == v * width + u {
        assert(y == v) by (nonlinear_arith)
            requires
                y * width + x == v * width + u,
                0 <= x < width,
                0 <= u < width,
        ;
    }
}

/// The canvas starts with its top left pixel; the pixel to the right of another is
/// the next one, and the one below it is a line further on; and what is outside of
/// the canvas is no pixel of it.
pub proof fn law_pixels_go_line_by_line(x: int, y: int, width: int, height: int)
    ensures
        width > 0 && height > 0 ==> pixel_at(0, 0, width, height) == Some(0int),
        0 <= x < width - 1 && 0 <= y < height ==> pixel_at(x + 1, y, width, height) == Some(
            pixel_at(x, y, width, height)->Some_0 + 1,
        ),
        0 <= x < width && 0 <= y < height - 1 ==> pixel_at(x, y + 1, width, height) == Some(
            pixel_at(x, y, width, height)->Some_0 + width,
        ),
        x < 0 || y < 0 || x >= width || y >= height <==> pixel_at(x, y, width, height) is None,
{
    assert((y + 1) * width == y * width + width) by (nonlinear_arith);
    assert(0 * width == 0) by (nonlinear_arith);
}

/// A rendered background, kept while the canvas keeps its size.
pub struct BackgroundCache {
    pub width: u32,
    pub height: u32,
    pub rgba: Vec<u8>,
}

/// Whether the background has to be rendered anew for a canvas of that size.
pub fn background_is_stale(cache: &Option<BackgroundCache>, w: u32, h: u32) -> (stale: bool)
    ensures
        stale == !(cache matches Some(bg) && bg.width == w && bg.height == h),
{
    match cache {
        Some(bg) => bg.width != w || bg.height != h,
        None => true,
    }
}

/// A click on a row of the open list of keyboard layouts selects that layout and closes
/// the list; the session stays.
pub proof fn law_the_chosen_layout_is_selected(ui: UiView, row: usize)
    requires
        ui.keyboard_dropdown_open,
    ensures
        ui.clicked(Hit::KeyboardOption(row)).selected_layout == row,
        ui.clicked(Hit::KeyboardOption(row)).selected_session == ui.selected_session,
        !ui.clicked(Hit::KeyboardOption(row)).keyboard_dropdown_open,
        ui.clicked(Hit::KeyboardOption(row)).keyboard_layouts == ui.keyboard_layouts,
{
}

/// The caret goes on and off once in a second.
pub proof fn law_the_caret_blinks_once_a_second()
    ensures
        2 * BLINK_MS == 1000,
{
}

/// The pointer is where it was last moved to, and moving it does nothing else; a key does
/// something when it goes down and nothing when it goes up; and the enter key signs in when
/// it goes down, whatever has the focus.
pub proof fn law_the_pointer_and_the_keys(
    ui: UiView,
    layout: Layout,
    x: i32,
    y: i32,
    keycode: u32,
    pressed: bool,
    text: String,
    next: UiView,
)
    ensures
        ui.after_event(layout, (UiEvent::MouseMove { x, y }), next) ==> next.cursor_pos.0 == x
            && next.cursor_pos.1 == y && next.username == ui.username && next.password
            == ui.password && next.focus == ui.focus && next.selected_session
            == ui.selected_session && next.session_dropdown_open == ui.session_dropdown_open,
        !ui.event_submits(layout, (UiEvent::MouseMove { x, y })),
        ui.after_event(layout, UiEvent::MouseAxis, next) ==> next == ui,
        !ui.event_submits(layout, UiEvent::MouseAxis),
        ui.after_event(layout, (UiEvent::KeyboardKey { keycode, pressed, text }), next) ==> next
            == if pressed {
            ui.key_pressed(keycode, text@)
        } else {
            ui
        },
        ui.event_submits(layout, (UiEvent::KeyboardKey { keycode, pressed, text })) <==> pressed
            && keycode == 28,
{
}

/// The screen says exactly what it holds, and so does what a user signs in with.
pub proof fn law_the_screen_says_what_it_holds(state: LoginUiState, c: Credentials, i: int)
    ensures
        state@.username == state.username@ && state@.password == state.password@,
        state@.focus == state.focus && state@.cursor_pos == state.cursor_pos,
        state@.selected_session == state.selected_session,
        state@.selected_layout == state.selected_layout,
        state@.session_dropdown_open == state.session_dropdown_open,
        state@.keyboard_dropdown_open == state.keyboard_dropdown_open,
        state@.sessions.len() == state.sessions@.len(),
        0 <= i < state.sessions@.len() ==> state@.sessions[i] == state.sessions@[i]@,
        state@.keyboard_layouts.len() == state.keyboard_layouts@.len(),
        0 <= i < state.keyboard_layouts@.len() ==> state@.keyboard_layouts[i].0
            == state.keyboard_layouts@[i].0@ && state@.keyboard_layouts[i].1
            == state.keyboard_layouts@[i].1@,
        c@.username == c.username@ && c@.password == c.password@ && c@.session == c.session@,
        submitted(Some(c)) == Some(c@),
        submitted(None) is None,
{
}

} // verus!
