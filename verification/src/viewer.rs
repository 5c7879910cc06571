//! The local viewers, and the tool that types into a compositor from the
//! command line.

use vstd::prelude::*;

use crate::numbers::{
    decimal, is_digit, law_decimal_reads_back, lemma_decimal, parse_i32, parse_u32, read_integer,
    signed_decimal, ParseIntError,
};
use crate::text::{
    chars_of, is_space, law_white_space_parts_words, same_text, split_words, texts, words,
};

verus! {

broadcast use crate::text::lemma_texts_push;

/// The grid that compositor sizes are snapped to.
pub const SNAP: i32 = 32;

/// What a length is snapped to: from -16 up, the number that is nearest to it
/// among those that the grid holds, the larger of two that are equally near.
/// Below that, the grid's number next to `n + 16` on the side of zero.
pub open spec fn snapped(n: int) -> int {
    if n + 16 >= 0 {
        (n + 16) / 32 * 32
    } else {
        -((-(n + 16)) / 32 * 32)
    }
}

/// Snaps a length to the grid.
pub fn snap(n: i32) -> (r: i32)
    requires
        n <= i32::MAX - 16,
    ensures
        r == snapped(n as int),
{
    if n + 16 >= 0 {
        (n + 16) / 32 * 32
    } else {
        let m: i64 = -(n as i64 + 16);
        (-(m / 32 * 32)) as i32
    }
}

/// A snapped length is on the grid, and at most half a step from what it was;
/// snapping it again changes nothing.
pub proof fn law_snapping(n: int)
    requires
        n >= -16,
    ensures
        snapped(n) % 32 == 0,
        -16 < snapped(n) - n <= 16,
        snapped(snapped(n)) == snapped(n),
{
}

/// What a viewer is started with.
pub struct ViewerArgs {
    pub width: i32,
    pub height: i32,
    /// What follows the size.
    pub rest: Vec<String>,
}

/// Why a viewer's arguments cannot be used.
#[derive(Clone, Copy, Debug, PartialEq, Eq, Structural)]
pub enum ViewerArgsError {
    /// There are too few: show the usage.
    Usage,
    InvalidWidth(ParseIntError),
    InvalidHeight(ParseIntError),
}

/// A size, read from a text.
pub open spec fn read_size(s: Seq<char>) -> Result<int, ParseIntError> {
    read_integer(s, i32::MIN as int, i32::MAX as int)
}

/// Reads `<program> <width> <height> [rest...]`.
pub fn parse_viewer_args(args: &Vec<String>) -> (r: Result<ViewerArgs, ViewerArgsError>)
    ensures
        ({
            let all = texts(args@);
            match r {
                Err(ViewerArgsError::Usage) => all.len() < 3,
                Err(ViewerArgsError::InvalidWidth(e)) => all.len() >= 3 && read_size(all[1]) == Err::<
                    int,
                    ParseIntError,
                >(e),
                Err(ViewerArgsError::InvalidHeight(e)) => all.len() >= 3 && read_size(all[1]) is Ok
                    && read_size(all[2]) == Err::<int, ParseIntError>(e),
                Ok(v) => {
                    &&& all.len() >= 3
                    &&& read_size(all[1]) == Ok::<int, ParseIntError>(v.width as int)
                    &&& read_size(all[2]) == Ok::<int, ParseIntError>(v.height as int)
                    &&& texts(v.rest@) == all.skip(3)
                },
            }
        }),
{
    let ghost all = texts(args@);
    if args.len() < 3 {
        return Err(ViewerArgsError::Usage);
    }
    assert(all[1] == args@[1]@ && all[2] == args@[2]@);
    let width: i32 = match parse_i32(args[1].as_str()) {
        Ok(w) => w,
        Err(e) => {
            return Err(ViewerArgsError::InvalidWidth(e));
        },
    };
    let height: i32 = match parse_i32(args[2].as_str()) {
        Ok(h) => h,
        Err(e) => {
            return Err(ViewerArgsError::InvalidHeight(e));
        },
    };
    let mut rest: Vec<String> = Vec::new();
    let mut i: usize = 3;
    assert(texts(rest@) =~= all.subrange(3, 3));
    while i < args.len()
        invariant
            all == texts(args@),
            3 <= i <= args@.len(),
            texts(rest@) == all.subrange(3, i as int),
        decreases args@.len() - i,
    {
        rest.push(args[i].clone());
        assert(all.subrange(3, i + 1) =~= all.subrange(3, i as int).push(all[i as int]));
        i += 1;
    }
    assert(all.subrange(3, all.len() as int) =~= all.skip(3));
    Ok(ViewerArgs { width, height, rest })
}

/// The program that a user's session runs: Plasma's shell unless another is
/// named. The shell is told not to start itself again.
pub fn user_payload(named: Option<&str>) -> (payload: Vec<String>)
    ensures
        texts(payload@) == match named {
            Some(app) => if app@ == "plasmashell"@ {
                seq!["plasmashell"@, "--no-respawn"@]
            } else {
                seq![app@]
            },
            None => seq!["plasmashell"@, "--no-respawn"@],
        },
{
    let app = match named {
        Some(a) => a,
        None => "plasmashell",
    };
    let mut payload: Vec<String> = Vec::new();
    assert(texts(payload@) =~= seq![]);
    payload.push(app.to_string());
    if same_text(app, "plasmashell") {
        payload.push("--no-respawn".to_string());
    }
    payload
}

/// The program that a nested session runs: sway unless another is named.
pub fn nested_command(rest: Vec<String>) -> (command: Vec<String>)
    ensures
        texts(command@) == if rest@.len() == 0 {
            seq!["sway"@]
        } else {
            texts(rest@)
        },
{
    if rest.len() == 0 {
        let mut command: Vec<String> = Vec::new();
        assert(texts(command@) =~= seq![]);
        command.push("sway".to_string());
        command
    } else {
        rest
    }
}

/// Where GStreamer looks for plugins once a directory is put before those it
/// knows.
pub fn plugin_path(plugin_dir: &str, existing: &str) -> (path: String)
    ensures
        path@ == if existing@.len() == 0 {
            plugin_dir@
        } else {
            plugin_dir@ + ":"@ + existing@
        },
{
    let mut path = plugin_dir.to_string();
    if chars_of(existing).len() > 0 {
        path.append(":");
        path.append(existing);
    }
    path
}

/// How long after a restart the next one is held back, in nanoseconds.
pub const RESTART_COOLDOWN_NS: u64 = 500_000_000;

/// How long a window's size has to stay before the compositor follows it, in
/// nanoseconds.
pub const RESIZE_DEBOUNCE_NS: u64 = 200_000_000;

/// A window's new size, and when it got it.
#[derive(Clone, Copy)]
pub struct PendingResize {
    pub width: i32,
    pub height: i32,
    pub since_ns: u64,
}

/// What a viewer has to remember about sizes.
pub struct ViewerState {
    pub pending: Option<PendingResize>,
    pub last_restart_ns: u64,
}

/// How much time has passed.
pub open spec fn elapsed(since: u64, now: u64) -> int {
    if now >= since {
        now - since
    } else {
        0
    }
}

fn time_since(since: u64, now: u64) -> (r: u64)
    ensures
        r == elapsed(since, now),
{
    if now >= since {
        now - since
    } else {
        0
    }
}

impl ViewerState {
    /// The stream's size has changed: whether to restart the pipeline now.
    pub fn frame_size_changed(&mut self, now_ns: u64) -> (restart: bool)
        ensures
            restart == (elapsed(old(self).last_restart_ns, now_ns) >= RESTART_COOLDOWN_NS),
            final(self).pending == old(self).pending,
            final(self).last_restart_ns == if restart {
                now_ns
            } else {
                old(self).last_restart_ns
            },
    {
        if time_since(self.last_restart_ns, now_ns) >= RESTART_COOLDOWN_NS {
            self.last_restart_ns = now_ns;
            true
        } else {
            false
        }
    }

    /// The window's size has changed: whether a resize was put on hold. A window
    /// without an area, or of the size that the stream has, asks for none.
    pub fn window_resized(
        &mut self,
        width: u32,
        height: u32,
        frame: Option<(u32, u32)>,
        now_ns: u64,
    ) -> (queued: bool)
        ensures
            queued == (width > 0 && height > 0 && frame != Some((width, height))),
            final(self).last_restart_ns == old(self).last_restart_ns,
            final(self).pending == if queued {
                Some(
                    PendingResize { width: width as i32, height: height as i32, since_ns: now_ns },
                )
            } else {
                old(self).pending
            },
    {
        let matching = match frame {
            Some((w, h)) => w == width && h == height,
            None => false,
        };
        if width > 0 && height > 0 && !matching {
            self.pending = Some(
                PendingResize { width: width as i32, height: height as i32, since_ns: now_ns },
            );
            true
        } else {
            false
        }
    }

    /// Time has passed: the size to give the compositor now, where a resize has
    /// been on hold for long enough. The pipeline is restarted for it.
    pub fn about_to_wait(&mut self, now_ns: u64) -> (resize: Option<(i32, i32)>)
        requires
            old(self).pending matches Some(p) ==> p.width <= i32::MAX - 16 && p.height <= i32::MAX
                - 16,
        ensures
            match resize {
                Some((w, h)) => {
                    &&& old(self).pending matches Some(p) && w == snapped(p.width as int) && h
                        == snapped(p.height as int) && elapsed(p.since_ns, now_ns)
                        >= RESIZE_DEBOUNCE_NS
                    &&& final(self).pending is None
                    &&& final(self).last_restart_ns == now_ns
                },
                None => {
                    &&& old(self).pending matches Some(p) ==> elapsed(p.since_ns, now_ns)
                        < RESIZE_DEBOUNCE_NS
                    &&& *final(self) == *old(self)
                },
            },
    {
        match self.pending {
            Some(p) => {
                if time_since(p.since_ns, now_ns) >= RESIZE_DEBOUNCE_NS {
                    self.pending = None;
                    self.last_restart_ns = now_ns;
                    Some((snap(p.width), snap(p.height)))
                } else {
                    None
                }
            },
            None => None,
        }
    }
}

/// What a viewer does about its login screen.
#[derive(Clone, Copy, Debug, PartialEq, Eq, Structural)]
pub enum LoginStep {
    /// It is still there.
    Wait,
    /// Somebody has logged in: start the user's session.
    StartUser,
    /// It has failed: end the viewer.
    Exit,
}

/// What to do about the login screen, which may have ended, well or not.
pub fn login_step(success: Option<bool>) -> (step: LoginStep)
    ensures
        step == match success {
            None => LoginStep::Wait,
            Some(true) => LoginStep::StartUser,
            Some(false) => LoginStep::Exit,
        },
{
    match success {
        None => LoginStep::Wait,
        Some(ok) => if ok {
            LoginStep::StartUser
        } else {
            LoginStep::Exit
        },
    }
}

/// What becomes of a user's session that was to take the login screen's place.
#[derive(Clone, Copy, Debug, PartialEq, Eq, Structural)]
pub enum HandoffStep {
    /// It is shown from now on, and the login screen is forgotten.
    Show,
    /// The viewer could not go over to it: the login screen is kept, and asked
    /// again.
    Keep,
    /// It could not be started: end the viewer.
    Exit,
}

/// What to do after an attempt to start a user's session and to go over to it.
pub fn handoff_step(started: bool, handed_off: bool) -> (step: HandoffStep)
    ensures
        step == if !started {
            HandoffStep::Exit
        } else if handed_off {
            HandoffStep::Show
        } else {
            HandoffStep::Keep
        },
{
    if !started {
        HandoffStep::Exit
    } else if handed_off {
        HandoffStep::Show
    } else {
        HandoffStep::Keep
    }
}

/// The node to show: the user's session, the login screen while there is none,
/// and 0 where there is neither.
pub fn active_node(user: Option<u32>, login: Option<u32>) -> (node: u32)
    ensures
        node == match user {
            Some(n) => n,
            None => match login {
                Some(n) => n,
                None => 0,
            },
        },
{
    match user {
        Some(n) => n,
        None => match login {
            Some(n) => n,
            None => 0,
        },
    }
}

/// A line typed into the input tool.
pub enum InputCommand {
    Key { code: u32, pressed: bool },
    Button { code: u32, pressed: bool },
    /// A relative motion, by two numbers that are still text.
    Rel { dx: String, dy: String },
    /// A command with a number that is none: nothing is sent.
    BadNumber,
    Unknown,
}

/// Whether a command is what a line says: a name, and two arguments.
pub open spec fn says(line: Seq<char>, command: InputCommand) -> bool {
    let w = words(line);
    let three = w.len() == 3;
    let key = three && w[0] == "key"@;
    let rel = three && w[0] == "rel"@;
    let button = three && w[0] == "button"@;
    match command {
        InputCommand::Key { code, pressed } => {
            &&& key
            &&& read_integer(w[1], 0, u32::MAX as int) == Ok::<int, ParseIntError>(code as int)
            &&& pressed == (w[2] == "1"@)
        },
        InputCommand::Button { code, pressed } => {
            &&& button
            &&& read_integer(w[1], 0, u32::MAX as int) == Ok::<int, ParseIntError>(code as int)
            &&& pressed == (w[2] == "1"@)
        },
        InputCommand::Rel { dx, dy } => rel && dx@ == w[1] && dy@ == w[2],
        InputCommand::BadNumber => (key || button) && read_integer(
            w[1],
            0,
            u32::MAX as int,
        ) is Err,
        InputCommand::Unknown => !key && !rel && !button,
    }
}

/// Reads `key <evdev> <1|0>`, `rel <dx> <dy>` or `button <btn> <1|0>`.
pub fn parse_input_command(line: &str) -> (command: InputCommand)
    ensures
        says(line@, command),
{
    let parts = split_words(line);
    let ghost w = words(line@);
    if parts.len() != 3 {
        return InputCommand::Unknown;
    }
    assert(w[0] == parts@[0]@ && w[1] == parts@[1]@ && w[2] == parts@[2]@);
    assert("key"@.len() == 3 && "rel"@.len() == 3 && "button"@.len() == 6) by {
        reveal_strlit("key");
        reveal_strlit("rel");
        reveal_strlit("button");
    }
    assert("key"@[0] != "rel"@[0]) by {
        reveal_strlit("key");
        reveal_strlit("rel");
    }
    let name = parts[0].as_str();
    let is_key = same_text(name, "key");
    let is_button = same_text(name, "button");
    if is_key || is_button {
        let pressed = same_text(parts[2].as_str(), "1");
        match parse_u32(parts[1].as_str()) {
            Ok(code) => {
                if is_key {
                    InputCommand::Key { code, pressed }
                } else {
                    InputCommand::Button { code, pressed }
                }
            },
            Err(_) => InputCommand::BadNumber,
        }
    } else if same_text(name, "rel") {
        InputCommand::Rel { dx: parts[1].clone(), dy: parts[2].clone() }
    } else {
        InputCommand::Unknown
    }
}

/// Below half a step under zero, a length is snapped to a number of the grid as well:
/// one that is not above zero, and that is larger by half a step or more, and by less
/// than one and a half.
pub proof fn law_snapping_below_zero(n: int)
    requires
        n < -16,
    ensures
        snapped(n) % 32 == 0,
        snapped(n) <= 0,
        16 <= snapped(n) - n < 48,
{
    let m = -(n + 16);
    assert(m / 32 * 32 <= m < m / 32 * 32 + 32);
    assert((-(m / 32 * 32)) % 32 == 0);
}

/// Time that has passed adds up, and a clock that ran backwards counts as none.
pub proof fn law_time_that_passes_adds_up(since: u64, now: u64, later: u64)
    ensures
        since <= now <= later ==> elapsed(since, now) + elapsed(now, later) == elapsed(since, later),
        since <= now ==> elapsed(since, now) == now - since,
        now < since ==> elapsed(since, now) == 0,
{
}

proof fn lemma_three_words(a: Seq<char>, b: Seq<char>, c: Seq<char>)
    requires
        a.len() > 0,
        b.len() > 0,
        c.len() > 0,
        forall|j: int| 0 <= j < a.len() ==> !is_space(#[trigger] a[j]),
        forall|j: int| 0 <= j < b.len() ==> !is_space(#[trigger] b[j]),
        forall|j: int| 0 <= j < c.len() ==> !is_space(#[trigger] c[j]),
    ensures
        words(a + seq![' '] + (b + seq![' '] + c)) == seq![a, b, c],
{
    law_white_space_parts_words(a, ' ', b + seq![' '] + c);
    law_white_space_parts_words(b, ' ', c);
    law_white_space_parts_words(c, ' ', seq![]);
    assert(words(a + seq![' '] + (b + seq![' '] + c)) =~= seq![a, b, c]);
}

/// A line that names a key or a button, its number and whether it goes down reads as
/// exactly that; and one that names a motion reads as that motion.
pub proof fn law_typed_commands_read_as_they_are_written(
    code: u32,
    pressed: bool,
    dx: Seq<char>,
    dy: Seq<char>,
    command: InputCommand,
)
    requires
        dx.len() > 0,
        dy.len() > 0,
        forall|j: int| 0 <= j < dx.len() ==> !is_space(#[trigger] dx[j]),
        forall|j: int| 0 <= j < dy.len() ==> !is_space(#[trigger] dy[j]),
    ensures
        ({
            let state = if pressed {
                "1"@
            } else {
                "0"@
            };
            let number = decimal(code as nat);
            &&& says("key"@ + seq![' '] + (number + seq![' '] + state), command) ==> command
                == InputCommand::Key { code, pressed }
            &&& says("button"@ + seq![' '] + (number + seq![' '] + state), command) ==> command
                == InputCommand::Button { code, pressed }
            &&& says("rel"@ + seq![' '] + (dx + seq![' '] + dy), command) ==> (
            command matches InputCommand::Rel { dx: x, dy: y } && x@ == dx && y@ == dy)
        }),
{
    let state = if pressed {
        "1"@
    } else {
        "0"@
    };
    let number = decimal(code as nat);
    reveal_strlit("1");
    reveal_strlit("0");
    reveal_strlit("key");
    reveal_strlit("button");
    reveal_strlit("rel");
    assert("0"@[0] != "1"@[0]);
    assert("key"@.len() == 3 && "rel"@.len() == 3 && "button"@.len() == 6);
    assert("key"@[0] != "rel"@[0]);
    lemma_decimal(code as nat);
    assert forall|j: int| 0 <= j < number.len() implies !is_space(#[trigger] number[j]) by {
        assert(is_digit(number[j]));
    }
    lemma_three_words("key"@, number, state);
    lemma_three_words("button"@, number, state);
    lemma_three_words("rel"@, dx, dy);
    assert(signed_decimal(code as int) == number);
    law_decimal_reads_back(code as int, 0, u32::MAX as int);
}

/// A width or a height reads as the number that it is written as.
pub proof fn law_sizes_read_as_they_are_written(n: i32)
    ensures
        read_size(signed_decimal(n as int)) == Ok::<int, ParseIntError>(n as int),
{
    law_decimal_reads_back(n as int, i32::MIN as int, i32::MAX as int);
}

/// A pipeline is restarted twice in a second at most, and a window's size is followed
/// once it has stayed for a fifth of a second.
pub proof fn law_restarts_and_resizes_are_held_back()
    ensures
        2 * RESTART_COOLDOWN_NS == 1_000_000_000,
        5 * RESIZE_DEBOUNCE_NS == 1_000_000_000,
{
}

/// A line that has not three words, or whose first word is none of the three names, is
/// no command; and a key or a button whose number is none is sent nothing of.
pub proof fn law_other_lines_are_no_commands(line: Seq<char>, command: InputCommand)
    requires
        says(line, command),
    ensures
        words(line).len() != 3 ==> command is Unknown,
        words(line).len() == 3 ==> {
            let name = words(line)[0];
            let number = read_integer(words(line)[1], 0, 0xffff_ffff);
            &&& name != "key"@ && name != "rel"@ && name != "button"@ ==> command is Unknown
            &&& (name == "key"@ || name == "button"@) && number is Err ==> command is BadNumber
            &&& name == "key"@ && number is Ok ==> command is Key
            &&& name == "button"@ && number is Ok ==> command is Button
            &&& name == "rel"@ ==> command is Rel
        },
{
    reveal_strlit("key");
    reveal_strlit("rel");
    reveal_strlit("button");
    assert("key"@.len() == 3 && "rel"@.len() == 3 && "button"@.len() == 6);
    assert("key"@[0] != "rel"@[0]);
}

} // verus!
