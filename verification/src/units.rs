//! The systemd units and the start script of a user's session, as text.

use vstd::prelude::*;

use crate::numbers::{
    decimal, is_digit, law_decimals_are_one_to_one, lemma_decimal_is_digits, push_decimal,
};
use crate::text::{
    all_stand_whole, chars_of, contains_text, follows, has_prefix, join, join_all, lemma_cat,
    lemma_cat_nothing, lemma_contains, lemma_follows, lemma_nothing_cat, lemma_piece_is_added, lemma_pieces_stay, lemma_same_before_separator, lemma_stands_whole,
    split, stands_whole, texts,
};

verus! {

/// Where transient units are written.
pub const UNIT_DIR: &'static str = "/run/systemd/system";

/// A character as it stands between single quotes: a quote closes them, stands
/// escaped, and opens them again.
pub open spec fn escaped_char(c: char) -> Seq<char> {
    if c == '\'' {
        "'\\''"@
    } else {
        seq![c]
    }
}

/// A text as it stands between single quotes.
pub open spec fn escaped(s: Seq<char>) -> Seq<char>
    decreases s.len(),
{
    if s.len() == 0 {
        seq![]
    } else {
        escaped(s.drop_last()) + escaped_char(s.last())
    }
}

/// A text as one word of a shell command.
pub open spec fn quoted_word(s: Seq<char>) -> Seq<char> {
    "'"@ + escaped(s) + "'"@
}

/// A text as one word of a shell command.
pub fn shell_quote(s: &str) -> (out: String)
    ensures
        out@ == quoted_word(s@),
{
    let chars = chars_of(s);
    let mut body = String::new();
    let mut i: usize = 0;
    assert(escaped(s@.take(0)) =~= seq![]);
    while i < chars.len()
        invariant
            chars@ == s@,
            i <= chars@.len(),
            body@ == escaped(s@.take(i as int)),
        decreases chars@.len() - i,
    {
        proof {
            let next = s@.take(i + 1);
            assert(next.drop_last() =~= s@.take(i as int));
            assert(next.last() == s@[i as int]);
        }
        if chars[i] == '\'' {
            body.append("'\\''");
        } else {
            let ghost before = body@;
            body.push(chars[i]);
            assert(body@ =~= before + seq![s@[i as int]]);
        }
        i += 1;
    }
    assert(s@.take(s@.len() as int) =~= s@);
    let mut out = "'".to_string();
    out.append(body.as_str());
    out.append("'");
    out
}

/// How a POSIX shell reads the words of a command: what it has read, the word it
/// is in, and whether it is between single quotes or behind a backslash.
#[verifier::ext_equal]
pub struct ShellReader {
    pub words: Seq<Seq<char>>,
    pub word: Option<Seq<char>>,
    pub quoted: bool,
    pub escaped: bool,
}

impl ShellReader {
    pub open spec fn start() -> ShellReader {
        ShellReader { words: seq![], word: None, quoted: false, escaped: false }
    }

    pub open spec fn current(self) -> Seq<char> {
        match self.word {
            Some(w) => w,
            None => seq![],
        }
    }

    /// One more character. Between single quotes every character but the quote
    /// stands for itself; behind a backslash the next one does.
    pub open spec fn step(self, c: char) -> ShellReader {
        if self.escaped {
            ShellReader { word: Some(self.current().push(c)), escaped: false, ..self }
        } else if self.quoted {
            if c == '\'' {
                ShellReader { quoted: false, ..self }
            } else {
                ShellReader { word: Some(self.current().push(c)), ..self }
            }
        } else if c == '\'' {
            ShellReader { word: Some(self.current()), quoted: true, ..self }
        } else if c == '\\' {
            ShellReader { word: Some(self.current()), escaped: true, ..self }
        } else if c == ' ' {
            match self.word {
                Some(w) => ShellReader { words: self.words.push(w), word: None, ..self },
                None => self,
            }
        } else {
            ShellReader { word: Some(self.current().push(c)), ..self }
        }
    }

    pub open spec fn run(self, s: Seq<char>) -> ShellReader
        decreases s.len(),
    {
        if s.len() == 0 {
            self
        } else {
            self.run(s.drop_last()).step(s.last())
        }
    }

    /// The words, once the command has ended.
    pub open spec fn finished(self) -> Seq<Seq<char>> {
        match self.word {
            Some(w) => self.words.push(w),
            None => self.words,
        }
    }
}

proof fn lemma_run_append(r: ShellReader, a: Seq<char>, b: Seq<char>)
    ensures
        r.run(a + b) == r.run(a).run(b),
    decreases b.len(),
{
    if b.len() == 0 {
        assert(a + b =~= a);
    } else {
        lemma_run_append(r, a, b.drop_last());
        assert((a + b).drop_last() =~= a + b.drop_last());
        assert((a + b).last() == b.last());
    }
}

proof fn lemma_run_one(r: ShellReader, c: char)
    ensures
        r.run(seq![c]) == r.step(c),
{
    assert(seq![c].drop_last() =~= seq![]);
    assert(r.run(seq![]) == r);
    assert(seq![c].last() == c);
}

proof fn lemma_run_escaped(r: ShellReader, s: Seq<char>)
    requires
        r.quoted,
        !r.escaped,
        r.word is Some,
    ensures
        r.run(escaped(s)) == (ShellReader { word: Some(r.current() + s), ..r }),
    decreases s.len(),
{
    if s.len() == 0 {
        assert(r.current() + s =~= r.current());
        assert(r.run(escaped(s)) =~= ShellReader { word: Some(r.current() + s), ..r });
    } else {
        let front = s.drop_last();
        let c = s.last();
        lemma_run_escaped(r, front);
        let mid = ShellReader { word: Some(r.current() + front), ..r };
        lemma_run_append(r, escaped(front), escaped_char(c));
        assert((r.current() + front).push(c) =~= r.current() + s);
        if c == '\'' {
            reveal_strlit("'\\''");
            let four = "'\\''"@;
            assert(four =~= seq!['\''] + seq!['\\'] + seq!['\''] + seq!['\'']);
            let a = seq!['\''];
            let b = seq!['\''] + seq!['\\'];
            let d = seq!['\''] + seq!['\\'] + seq!['\''];
            lemma_run_append(mid, d, seq!['\'']);
            lemma_run_append(mid, b, seq!['\'']);
            lemma_run_append(mid, a, seq!['\\']);
            lemma_run_one(mid, '\'');
            lemma_run_one(mid.run(a), '\\');
            lemma_run_one(mid.run(b), '\'');
            lemma_run_one(mid.run(d), '\'');
            assert(mid.run(four) =~= ShellReader { word: Some(r.current() + s), ..r });
        } else {
            lemma_run_one(mid, c);
            assert(mid.run(seq![c]) =~= ShellReader { word: Some(r.current() + s), ..r });
        }
    }
}

proof fn lemma_run_quoted(r: ShellReader, s: Seq<char>)
    requires
        !r.quoted,
        !r.escaped,
        r.word is None,
    ensures
        r.run(quoted_word(s)) == (ShellReader { word: Some(s), ..r }),
{
    reveal_strlit("'");
    assert("'"@ =~= seq!['\'']);
    let open = r.step('\'');
    lemma_run_one(r, '\'');
    assert(open == ShellReader { word: Some(seq![]), quoted: true, ..r });
    lemma_run_append(r, "'"@ + escaped(s), "'"@);
    lemma_run_append(r, "'"@, escaped(s));
    lemma_run_escaped(open, s);
    assert(open.current() + s =~= s);
    let inside = open.run(escaped(s));
    lemma_run_one(inside, '\'');
    assert(r.run(quoted_word(s)) =~= ShellReader { word: Some(s), ..r });
}

/// A payload as a shell command: its words quoted, with a space between.
pub open spec fn command_line(payload: Seq<Seq<char>>) -> Seq<char> {
    join(payload.map_values(|w: Seq<char>| quoted_word(w)), " "@)
}

/// A shell reads the words of a quoted command exactly as they were given,
/// whatever characters they hold.
pub proof fn law_shell_reads_the_payload_back(payload: Seq<Seq<char>>)
    ensures
        ShellReader::start().run(command_line(payload)).finished() == payload,
{
    lemma_run_command_line(payload);
    if payload.len() == 0 {
        assert(payload =~= seq![]);
    } else {
        assert(payload.drop_last().push(payload.last()) =~= payload);
    }
}

proof fn lemma_run_command_line(payload: Seq<Seq<char>>)
    ensures
        payload.len() == 0 ==> ShellReader::start().run(command_line(payload))
            == ShellReader::start(),
        payload.len() > 0 ==> ShellReader::start().run(command_line(payload)) == (ShellReader {
            words: payload.drop_last(),
            word: Some(payload.last()),
            quoted: false,
            escaped: false,
        }),
    decreases payload.len(),
{
    let quotes = payload.map_values(|w: Seq<char>| quoted_word(w));
    let start = ShellReader::start();
    if payload.len() == 1 {
        lemma_run_quoted(start, payload[0]);
        assert(command_line(payload) == quoted_word(payload[0]));
        assert(payload.drop_last() =~= seq![]);
    } else if payload.len() > 1 {
        let front = payload.drop_last();
        lemma_run_command_line(front);
        assert(quotes.drop_last() =~= front.map_values(|w: Seq<char>| quoted_word(w)));
        assert(command_line(payload) == command_line(front) + " "@ + quoted_word(payload.last()));
        let a = start.run(command_line(front));
        reveal_strlit(" ");
        assert(" "@ =~= seq![' ']);
        lemma_run_append(start, command_line(front) + " "@, quoted_word(payload.last()));
        lemma_run_append(start, command_line(front), " "@);
        lemma_run_one(a, ' ');
        let b = a.step(' ');
        assert(front.drop_last().push(front.last()) =~= front);
        assert(b == ShellReader { words: front, word: None, quoted: false, escaped: false });
        lemma_run_quoted(b, payload.last());
    }
}

/// A payload as a shell command.
pub(crate) fn write_command_line(payload: &Vec<String>) -> (out: String)
    ensures
        out@ == command_line(texts(payload@)),
{
    let mut words: Vec<String> = Vec::new();
    let mut i: usize = 0;
    while i < payload.len()
        invariant
            i <= payload@.len(),
            words@.len() == i,
            forall|j: int| 0 <= j < i ==> (#[trigger] words@[j])@ == quoted_word(payload@[j]@),
        decreases payload@.len() - i,
    {
        words.push(shell_quote(payload[i].as_str()));
        i += 1;
    }
    assert(texts(words@) =~= texts(payload@).map_values(|w: Seq<char>| quoted_word(w)));
    join_all(&words, " ")
}

/// The script that starts a session's payload.
pub open spec fn session_script(
    runtime_dir: Seq<char>,
    socket_name: Seq<char>,
    pipewire_socket_path: Seq<char>,
    pulse_socket_path: Seq<char>,
    payload: Seq<Seq<char>>,
) -> Seq<char> {
    "#!/bin/sh\nexport PULSE_SERVER=unix:"@ + pulse_socket_path
        + "\ndbus-update-activation-environment --systemd WAYLAND_DISPLAY="@ + socket_name
        + " XDG_RUNTIME_DIR="@ + runtime_dir + " PIPEWIRE_REMOTE="@ + pipewire_socket_path
        + " PULSE_SERVER=unix:"@ + pulse_socket_path + "\nexec "@ + command_line(payload) + "\n"@
}

/// The script that starts a session's payload: where it goes, and its text.
pub fn write_session_script(
    runtime_dir: &str,
    socket_name: &str,
    pipewire_socket_path: &str,
    pulse_socket_path: &str,
    payload: &Vec<String>,
) -> (r: (String, String))
    ensures
        r.0@ == runtime_dir@ + "/session-start.sh"@,
        r.1@ == session_script(
            runtime_dir@,
            socket_name@,
            pipewire_socket_path@,
            pulse_socket_path@,
            texts(payload@),
        ),
{
    let mut path = runtime_dir.to_string();
    path.append("/session-start.sh");
    let mut text = "#!/bin/sh\nexport PULSE_SERVER=unix:".to_string();
    text.append(pulse_socket_path);
    text.append("\ndbus-update-activation-environment --systemd WAYLAND_DISPLAY=");
    text.append(socket_name);
    text.append(" XDG_RUNTIME_DIR=");
    text.append(runtime_dir);
    text.append(" PIPEWIRE_REMOTE=");
    text.append(pipewire_socket_path);
    text.append(" PULSE_SERVER=unix:");
    text.append(pulse_socket_path);
    text.append("\nexec ");
    text.append(write_command_line(payload).as_str());
    text.append("\n");
    (path, text)
}

/// The unit that holds a session's Wayland socket.
pub open spec fn socket_unit_text(
    wayland_socket_path: Seq<char>,
    broker_user: Seq<char>,
) -> Seq<char> {
    "[Socket]\nListenStream="@ + wayland_socket_path + "\nSocketUser="@ + broker_user
        + "\nSocketMode=0660\n"@
}

/// The unit that holds a session's Wayland socket.
pub fn socket_unit(wayland_socket_path: &str, broker_user: &str) -> (text: String)
    ensures
        text@ == socket_unit_text(wayland_socket_path@, broker_user@),
{
    let mut text = "[Socket]\nListenStream=".to_string();
    text.append(wayland_socket_path);
    text.append("\nSocketUser=");
    text.append(broker_user);
    text.append("\nSocketMode=0660\n");
    text
}

/// The command that a session's service runs, before any sandbox is put round
/// it.
pub open spec fn compositor_command(
    session_init: Seq<char>,
    username: Seq<char>,
    kwin_path: Seq<char>,
    width: u32,
    height: u32,
    socket_name: Seq<char>,
    script: Option<Seq<char>>,
) -> Seq<char> {
    let plain = session_init + " "@ + username + " -- dbus-run-session -- "@ + kwin_path
        + " --virtual --width "@ + decimal(width as nat) + " --height "@ + decimal(height as nat)
        + " --scale 1 --no-lockscreen --wayland-fd 3 --socket "@ + socket_name + " --xwayland"@;
    match script {
        Some(path) => plain + " --exit-with-session "@ + path,
        None => plain,
    }
}

/// The command that a session's service runs.
pub open spec fn exec_start_text(command: Seq<char>, sandbox: Option<Seq<Seq<char>>>) -> Seq<char> {
    match sandbox {
        Some(prefix) => join(prefix, " "@) + " "@ + command,
        None => command,
    }
}

/// The command that a session's service runs.
pub fn exec_start(
    session_init: &str,
    username: &str,
    kwin_path: &str,
    width: u32,
    height: u32,
    socket_name: &str,
    script: Option<&str>,
    sandbox: Option<&Vec<String>>,
) -> (out: String)
    ensures
        out@ == exec_start_text(
            compositor_command(
                session_init@,
                username@,
                kwin_path@,
                width,
                height,
                socket_name@,
                match script {
                    Some(p) => Some(p@),
                    None => None,
                },
            ),
            match sandbox {
                Some(p) => Some(texts(p@)),
                None => None,
            },
        ),
{
    let mut command = session_init.to_string();
    command.append(" ");
    command.append(username);
    command.append(" -- dbus-run-session -- ");
    command.append(kwin_path);
    command.append(" --virtual --width ");
    push_decimal(&mut command, width as u64);
    command.append(" --height ");
    push_decimal(&mut command, height as u64);
    command.append(" --scale 1 --no-lockscreen --wayland-fd 3 --socket ");
    command.append(socket_name);
    command.append(" --xwayland");
    if let Some(path) = script {
        command.append(" --exit-with-session ");
        command.append(path);
    }
    match sandbox {
        Some(prefix) => {
            let mut out = join_all(prefix, " ");
            out.append(" ");
            out.append(command.as_str());
            out
        },
        None => command,
    }
}

proof fn lemma_command_around_the_size(
    session_init: Seq<char>,
    username: Seq<char>,
    kwin_path: Seq<char>,
    width: u32,
    height: u32,
    socket_name: Seq<char>,
    script: Option<Seq<char>>,
    sandbox: Option<Seq<Seq<char>>>,
) -> (r: (Seq<char>, Seq<char>))
    ensures
        exec_start_text(
            compositor_command(
                session_init,
                username,
                kwin_path,
                width,
                height,
                socket_name,
                script,
            ),
            sandbox,
        ) == r.0 + seq![' '] + ("--width"@ + seq![' '] + (decimal(width as nat) + seq![' '] + (
        "--height"@ + seq![' '] + (decimal(height as nat) + seq![' '] + r.1)))),
        r.0 == match sandbox {
            Some(prefix) => join(prefix, " "@) + " "@,
            None => seq![],
        } + (session_init + " "@ + username + " -- dbus-run-session -- "@ + kwin_path
            + " --virtual"@),
        r.1 == "--scale 1 --no-lockscreen --wayland-fd 3 --socket "@ + socket_name + " --xwayland"@
            + match script {
            Some(path) => " --exit-with-session "@ + path,
            None => seq![],
        },
{
    broadcast use {lemma_cat, lemma_cat_nothing, lemma_nothing_cat};

    assert(" --virtual --width "@ == " --virtual"@ + (seq![' '] + ("--width"@ + seq![' ']))) by {
        reveal_strlit(" --virtual --width ");
        reveal_strlit(" --virtual");
        reveal_strlit("--width");
    }
    assert(" --height "@ == seq![' '] + ("--height"@ + seq![' '])) by {
        reveal_strlit(" --height ");
        reveal_strlit("--height");
    }
    assert(" --scale 1 --no-lockscreen --wayland-fd 3 --socket "@ == seq![' ']
        + "--scale 1 --no-lockscreen --wayland-fd 3 --socket "@) by {
        reveal_strlit(" --scale 1 --no-lockscreen --wayland-fd 3 --socket ");
        reveal_strlit("--scale 1 --no-lockscreen --wayland-fd 3 --socket ");
    }
    let lead = match sandbox {
        Some(prefix) => join(prefix, " "@) + " "@,
        None => seq![],
    };
    let tail = match script {
        Some(path) => " --exit-with-session "@ + path,
        None => seq![],
    };
    (
        lead + (session_init + " "@ + username + " -- dbus-run-session -- "@ + kwin_path
            + " --virtual"@),
        "--scale 1 --no-lockscreen --wayland-fd 3 --socket "@ + socket_name + " --xwayland"@
            + tail,
    )
}

/// The service's command, split into words, has the decimal text of the wanted
/// width right behind `--width`, and that of the wanted height right behind
/// `--height`.
pub proof fn law_the_command_asks_for_the_wanted_size(
    session_init: Seq<char>,
    username: Seq<char>,
    kwin_path: Seq<char>,
    width: u32,
    height: u32,
    socket_name: Seq<char>,
    script: Option<Seq<char>>,
    sandbox: Option<Seq<Seq<char>>>,
)
    ensures
        ({
            let words = split(
                exec_start_text(
                    compositor_command(
                        session_init,
                        username,
                        kwin_path,
                        width,
                        height,
                        socket_name,
                        script,
                    ),
                    sandbox,
                ),
                ' ',
            );
            &&& follows(words, "--width"@, decimal(width as nat))
            &&& follows(words, "--height"@, decimal(height as nat))
        }),
{
    let (before, behind) = lemma_command_around_the_size(
        session_init,
        username,
        kwin_path,
        width,
        height,
        socket_name,
        script,
        sandbox,
    );
    let w = decimal(width as nat);
    let h = decimal(height as nat);
    lemma_decimal_is_digits(width as nat);
    lemma_decimal_is_digits(height as nat);
    assert forall|j: int| 0 <= j < w.len() implies w[j] != ' ' by {
        assert(is_digit(w[j]));
    }
    assert forall|j: int| 0 <= j < h.len() implies h[j] != ' ' by {
        assert(is_digit(h[j]));
    }
    reveal_strlit("--width");
    reveal_strlit("--height");
    let high = "--height"@ + seq![' '] + (h + seq![' '] + behind);
    let s = before + seq![' '] + ("--width"@ + seq![' '] + (w + seq![' '] + high));
    lemma_follows(s, before, "--width"@, w, high, ' ');
    let front = before + seq![' '] + "--width"@ + seq![' '] + w;
    assert(s =~= front + seq![' '] + high);
    lemma_follows(s, front, "--height"@, h, behind, ' ');
}

/// Two sessions that are asked for in different sizes have different commands.
pub proof fn law_other_sizes_have_other_commands(
    session_init: Seq<char>,
    username: Seq<char>,
    kwin_path: Seq<char>,
    a: (u32, u32),
    b: (u32, u32),
    socket_name: Seq<char>,
    script: Option<Seq<char>>,
    sandbox: Option<Seq<Seq<char>>>,
)
    requires
        a != b,
    ensures
        exec_start_text(
            compositor_command(session_init, username, kwin_path, a.0, a.1, socket_name, script),
            sandbox,
        ) != exec_start_text(
            compositor_command(session_init, username, kwin_path, b.0, b.1, socket_name, script),
            sandbox,
        ),
{
    let (before, behind) = lemma_command_around_the_size(
        session_init,
        username,
        kwin_path,
        a.0,
        a.1,
        socket_name,
        script,
        sandbox,
    );
    let (_, _) = lemma_command_around_the_size(
        session_init,
        username,
        kwin_path,
        b.0,
        b.1,
        socket_name,
        script,
        sandbox,
    );
    let one = exec_start_text(
        compositor_command(session_init, username, kwin_path, a.0, a.1, socket_name, script),
        sandbox,
    );
    let two = exec_start_text(
        compositor_command(session_init, username, kwin_path, b.0, b.1, socket_name, script),
        sandbox,
    );
    let (aw, ah) = (decimal(a.0 as nat), decimal(a.1 as nat));
    let (bw, bh) = (decimal(b.0 as nat), decimal(b.1 as nat));
    lemma_decimal_is_digits(a.0 as nat);
    lemma_decimal_is_digits(a.1 as nat);
    lemma_decimal_is_digits(b.0 as nat);
    lemma_decimal_is_digits(b.1 as nat);
    law_decimals_are_one_to_one(a.0 as nat, b.0 as nat);
    law_decimals_are_one_to_one(a.1 as nat, b.1 as nat);
    if one == two {
        let ax = "--height"@ + seq![' '] + (ah + seq![' '] + behind);
        let bx = "--height"@ + seq![' '] + (bh + seq![' '] + behind);
        lemma_same_behind(
            before + seq![' '],
            "--width"@ + seq![' '] + (aw + seq![' '] + ax),
            "--width"@ + seq![' '] + (bw + seq![' '] + bx),
        );
        lemma_same_behind("--width"@ + seq![' '], aw + seq![' '] + ax, bw + seq![' '] + bx);
        lemma_no_space(aw);
        lemma_no_space(bw);
        lemma_same_before_separator(aw, ax, bw, bx, ' ');
        lemma_same_behind("--height"@ + seq![' '], ah + seq![' '] + behind, bh + seq![' '] + behind);
        lemma_no_space(ah);
        lemma_no_space(bh);
        lemma_same_before_separator(ah, behind, bh, behind, ' ');
    }
}

proof fn lemma_same_behind(front: Seq<char>, a: Seq<char>, b: Seq<char>)
    requires
        front + a == front + b,
    ensures
        a == b,
{
    let n = front.len() as int;
    assert((front + a).skip(n) =~= a);
    assert((front + b).skip(n) =~= b);
}

proof fn lemma_no_space(s: Seq<char>)
    requires
        forall|j: int| 0 <= j < s.len() ==> is_digit(#[trigger] s[j]),
    ensures
        forall|j: int| 0 <= j < s.len() ==> s[j] != ' ',
{
    assert forall|j: int| 0 <= j < s.len() implies s[j] != ' ' by {
        assert(is_digit(s[j]));
    }
}

proof fn lemma_ends(s: Seq<char>, front: Seq<char>, tail: Seq<char>)
    requires
        s == front + tail,
    ensures
        tail.len() <= s.len(),
        s.skip(s.len() - tail.len()) == tail,
{
    assert(s.skip(s.len() - tail.len()) =~= tail);
}

proof fn lemma_command_middle(
    before: Seq<char>,
    width: Seq<char>,
    height: Seq<char>,
    behind: Seq<char>,
)
    ensures
        before + seq![' '] + ("--width"@ + seq![' '] + (width + seq![' '] + ("--height"@ + seq![' ']
            + (height + seq![' '] + behind)))) == before + ((seq![' '] + ("--width"@ + seq![' '] + (
        width + seq![' '] + ("--height"@ + seq![' '] + (height + seq![' ']))))) + behind),
{
    broadcast use lemma_cat;

}

proof fn lemma_command_front(
    lead: Seq<char>,
    init: Seq<char>,
    space: Seq<char>,
    user: Seq<char>,
    dashes: Seq<char>,
    dbus: Seq<char>,
    kwin: Seq<char>,
    word: Seq<char>,
    tail: Seq<char>,
)
    ensures
        ({
            let line = (lead + (init + space + user + (dashes + (dbus + dashes)) + kwin + (space
                + word))) + tail;
            let helper = init + space + user + dashes;
            let compositor = dashes + kwin + space;
            &&& line == lead + (helper + (dbus + (compositor + (word + tail))))
            &&& line == (lead + (helper + dbus)) + (compositor + (word + tail))
            &&& line == (lead + init + space) + (user + (dashes + (dbus + (compositor + (word
                + tail)))))
        }),
{
    broadcast use lemma_cat;

}

/// The service's command runs the session's helper for the user, and the
/// compositor below it; it begins with the sandbox where there is one, and with
/// the helper where there is none.
pub proof fn law_the_command_runs_the_compositor_for_the_user(
    session_init: Seq<char>,
    username: Seq<char>,
    kwin_path: Seq<char>,
    width: u32,
    height: u32,
    socket_name: Seq<char>,
    script: Option<Seq<char>>,
    sandbox: Option<Seq<Seq<char>>>,
)
    ensures
        ({
            let line = exec_start_text(
                compositor_command(
                    session_init,
                    username,
                    kwin_path,
                    width,
                    height,
                    socket_name,
                    script,
                ),
                sandbox,
            );
            &&& contains_text(line, session_init + " "@ + username + " -- "@)
            &&& contains_text(line, " -- "@ + kwin_path + " "@)
            &&& has_prefix(
                line,
                match sandbox {
                    Some(prefix) => join(prefix, " "@) + " "@ + session_init,
                    None => session_init,
                } + " "@,
            )
        }),
{
    let (before, behind) = lemma_command_around_the_size(
        session_init,
        username,
        kwin_path,
        width,
        height,
        socket_name,
        script,
        sandbox,
    );
    let line = exec_start_text(
        compositor_command(session_init, username, kwin_path, width, height, socket_name, script),
        sandbox,
    );
    let mid = seq![' '] + ("--width"@ + seq![' '] + (decimal(width as nat) + seq![' '] + (
    "--height"@ + seq![' '] + (decimal(height as nat) + seq![' ']))));
    lemma_command_middle(before, decimal(width as nat), decimal(height as nat), behind);
    let lead = match sandbox {
        Some(prefix) => join(prefix, " "@) + " "@,
        None => seq![],
    };
    let dbus = "dbus-run-session"@;
    assert(" -- dbus-run-session -- "@ == " -- "@ + (dbus + " -- "@)) by {
        reveal_strlit(" -- dbus-run-session -- ");
        reveal_strlit(" -- ");
        reveal_strlit("dbus-run-session");
    }
    assert(" --virtual"@ == " "@ + "--virtual"@) by {
        reveal_strlit(" --virtual");
        reveal_strlit(" ");
        reveal_strlit("--virtual");
    }
    let kwin = " -- "@ + kwin_path + " "@;
    let init = session_init + " "@ + username + " -- "@;
    let start = lead + session_init + " "@;
    let away = "--virtual"@ + (mid + behind);
    lemma_command_front(
        lead,
        session_init,
        " "@,
        username,
        " -- "@,
        dbus,
        kwin_path,
        "--virtual"@,
        mid + behind,
    );
    lemma_contains(line, lead, init, dbus + (kwin + away));
    lemma_contains(line, lead + (init + dbus), kwin, away);
    let rest = username + (" -- "@ + (dbus + (kwin + away)));
    lemma_nothing_cat(start + rest);
    lemma_contains(line, seq![], start, rest);
    lemma_nothing_cat(session_init);
}

/// The service's compositor is on the session's socket.
pub proof fn law_the_command_names_the_socket(
    session_init: Seq<char>,
    username: Seq<char>,
    kwin_path: Seq<char>,
    width: u32,
    height: u32,
    socket_name: Seq<char>,
    script: Option<Seq<char>>,
    sandbox: Option<Seq<Seq<char>>>,
)
    ensures
        ({
            let line = exec_start_text(
                compositor_command(
                    session_init,
                    username,
                    kwin_path,
                    width,
                    height,
                    socket_name,
                    script,
                ),
                sandbox,
            );
            contains_text(line, " --socket "@ + socket_name + " "@)
        }),
{
    let (before, behind) = lemma_command_around_the_size(
        session_init,
        username,
        kwin_path,
        width,
        height,
        socket_name,
        script,
        sandbox,
    );
    let line = exec_start_text(
        compositor_command(session_init, username, kwin_path, width, height, socket_name, script),
        sandbox,
    );
    let mid = seq![' '] + ("--width"@ + seq![' '] + (decimal(width as nat) + seq![' '] + (
    "--height"@ + seq![' '] + (decimal(height as nat) + seq![' ']))));
    lemma_command_middle(before, decimal(width as nat), decimal(height as nat), behind);
    let tail = match script {
        Some(path) => " --exit-with-session "@ + path,
        None => seq![],
    };
    let scale = "--scale 1 --no-lockscreen --wayland-fd 3"@;
    assert(" --xwayland"@ == " "@ + "--xwayland"@) by {
        reveal_strlit(" --xwayland");
        reveal_strlit(" ");
        reveal_strlit("--xwayland");
    }
    assert("--scale 1 --no-lockscreen --wayland-fd 3 --socket "@ == scale + " --socket "@) by {
        reveal_strlit("--scale 1 --no-lockscreen --wayland-fd 3 --socket ");
        reveal_strlit("--scale 1 --no-lockscreen --wayland-fd 3");
        reveal_strlit(" --socket ");
    }
    let socket = " --socket "@ + socket_name + " "@;
    assert(behind == scale + (socket + ("--xwayland"@ + tail))) by {
        broadcast use lemma_cat;

    }
    assert(line == (before + (mid + scale)) + (socket + ("--xwayland"@ + tail))) by {
        broadcast use lemma_cat;

    }
    lemma_contains(line, before + (mid + scale), socket, "--xwayland"@ + tail);
}

/// The service's command ends with the payload's script where there is one, and
/// names none where there is none.
pub proof fn law_the_command_ends_with_the_script(
    session_init: Seq<char>,
    username: Seq<char>,
    kwin_path: Seq<char>,
    width: u32,
    height: u32,
    socket_name: Seq<char>,
    script: Option<Seq<char>>,
    sandbox: Option<Seq<Seq<char>>>,
)
    ensures
        ({
            let line = exec_start_text(
                compositor_command(
                    session_init,
                    username,
                    kwin_path,
                    width,
                    height,
                    socket_name,
                    script,
                ),
                sandbox,
            );
            &&& script matches Some(path) ==> " --exit-with-session "@.len() + path.len()
                <= line.len() && line.skip(
                line.len() - " --exit-with-session "@.len() - path.len(),
            ) == " --exit-with-session "@ + path
            &&& script is None ==> " --xwayland"@.len() <= line.len() && line.skip(
                line.len() - " --xwayland"@.len(),
            ) == " --xwayland"@
        }),
{
    let (before, behind) = lemma_command_around_the_size(
        session_init,
        username,
        kwin_path,
        width,
        height,
        socket_name,
        script,
        sandbox,
    );
    let line = exec_start_text(
        compositor_command(session_init, username, kwin_path, width, height, socket_name, script),
        sandbox,
    );
    let mid = seq![' '] + ("--width"@ + seq![' '] + (decimal(width as nat) + seq![' '] + (
    "--height"@ + seq![' '] + (decimal(height as nat) + seq![' ']))));
    lemma_command_middle(before, decimal(width as nat), decimal(height as nat), behind);
    let scale = "--scale 1 --no-lockscreen --wayland-fd 3 --socket "@;
    match script {
        Some(path) => {
            let tail = " --exit-with-session "@ + path;
            let front = before + (mid + (scale + (socket_name + " --xwayland"@)));
            assert(line == front + tail) by {
                broadcast use lemma_cat;

            }
            lemma_ends(line, front, tail);
        },
        None => {
            let front = before + (mid + (scale + socket_name));
            assert(line == front + " --xwayland"@) by {
                broadcast use {lemma_cat, lemma_cat_nothing};

            }
            lemma_ends(line, front, " --xwayland"@);
        },
    }
}

/// The unit that runs a user's compositor.
pub open spec fn service_unit_text(
    home_dir: Seq<char>,
    shell: Seq<char>,
    username: Seq<char>,
    runtime_dir: Seq<char>,
    pipewire_socket_path: Seq<char>,
    pulse_socket_path: Seq<char>,
    logging_rules: Option<Seq<char>>,
    exec_start: Seq<char>,
) -> Seq<char> {
    let fixed = "[Service]\nType=simple\nWorkingDirectory="@ + home_dir + "\nEnvironment=HOME="@
        + home_dir + "\nEnvironment=SHELL="@ + shell + "\nEnvironment=USER="@ + username
        + "\nEnvironment=LOGNAME="@ + username + "\nEnvironment=XDG_RUNTIME_DIR="@ + runtime_dir
        + "\nEnvironment=PIPEWIRE_REMOTE="@ + pipewire_socket_path
        + "\nEnvironment=PULSE_SERVER=unix:"@ + pulse_socket_path
        + "\nEnvironment=KWIN_PLATFORM=virtual\nEnvironment=KWIN_WAYLAND_NO_PERMISSION_CHECKS=1\nEnvironment=LIBGL_ALWAYS_SOFTWARE=1\nEnvironment=XDG_SESSION_TYPE=wayland\nEnvironment=XDG_CURRENT_DESKTOP=KDE\nEnvironment=DESKTOP_SESSION=plasma\nEnvironment=KDE_FULL_SESSION=true\nEnvironment=KDE_SESSION_VERSION=6\nEnvironment=XDG_DATA_DIRS=/usr/local/share:/usr/share\nEnvironment=XDG_CONFIG_DIRS=/etc/xdg\nEnvironment=XDG_MENU_PREFIX=plasma-\n"@;
    let ruled = match logging_rules {
        Some(rules) => fixed + "Environment=QT_LOGGING_RULES="@ + rules + "\n"@,
        None => fixed,
    };
    ruled + "ExecStart="@ + exec_start + "\n"@
}

/// The unit that runs a user's compositor.
pub fn service_unit(
    home_dir: &str,
    shell: &str,
    username: &str,
    runtime_dir: &str,
    pipewire_socket_path: &str,
    pulse_socket_path: &str,
    logging_rules: Option<&str>,
    exec_start: &str,
) -> (text: String)
    ensures
        text@ == service_unit_text(
            home_dir@,
            shell@,
            username@,
            runtime_dir@,
            pipewire_socket_path@,
            pulse_socket_path@,
            match logging_rules {
                Some(r) => Some(r@),
                None => None,
            },
            exec_start@,
        ),
{
    let mut text = "[Service]\nType=simple\nWorkingDirectory=".to_string();
    text.append(home_dir);
    text.append("\nEnvironment=HOME=");
    text.append(home_dir);
    text.append("\nEnvironment=SHELL=");
    text.append(shell);
    text.append("\nEnvironment=USER=");
    text.append(username);
    text.append("\nEnvironment=LOGNAME=");
    text.append(username);
    text.append("\nEnvironment=XDG_RUNTIME_DIR=");
    text.append(runtime_dir);
    text.append("\nEnvironment=PIPEWIRE_REMOTE=");
    text.append(pipewire_socket_path);
    text.append("\nEnvironment=PULSE_SERVER=unix:");
    text.append(pulse_socket_path);
    text.append(
        "\nEnvironment=KWIN_PLATFORM=virtual\nEnvironment=KWIN_WAYLAND_NO_PERMISSION_CHECKS=1\nEnvironment=LIBGL_ALWAYS_SOFTWARE=1\nEnvironment=XDG_SESSION_TYPE=wayland\nEnvironment=XDG_CURRENT_DESKTOP=KDE\nEnvironment=DESKTOP_SESSION=plasma\nEnvironment=KDE_FULL_SESSION=true\nEnvironment=KDE_SESSION_VERSION=6\nEnvironment=XDG_DATA_DIRS=/usr/local/share:/usr/share\nEnvironment=XDG_CONFIG_DIRS=/etc/xdg\nEnvironment=XDG_MENU_PREFIX=plasma-\n",
    );
    if let Some(rules) = logging_rules {
        text.append("Environment=QT_LOGGING_RULES=");
        text.append(rules);
        text.append("\n");
    }
    text.append("ExecStart=");
    text.append(exec_start);
    text.append("\n");
    text
}

/// A session's Wayland socket is at its path and belongs to the broker's user, who
/// shares it with its group.
pub proof fn law_the_socket_unit_says_path_and_owner(path: Seq<char>, user: Seq<char>)
    ensures
        all_stand_whole(
            socket_unit_text(path, user),
            seq!["ListenStream="@ + path, "SocketUser="@ + user, "SocketMode=0660"@],
            '\n',
        ),
{
    reveal_strlit("[Socket]\nListenStream=");
    reveal_strlit("[Socket]");
    reveal_strlit("\nListenStream=");
    reveal_strlit("ListenStream=");
    reveal_strlit("\nSocketUser=");
    reveal_strlit("SocketUser=");
    reveal_strlit("\nSocketMode=0660\n");
    reveal_strlit("\nSocketMode=0660");
    reveal_strlit("SocketMode=0660");
    let none = Seq::<Seq<char>>::empty();
    let a = "[Socket]"@;
    assert("[Socket]\nListenStream="@ =~= a + "\nListenStream="@);
    assert("\nListenStream="@ =~= seq!['\n'] + "ListenStream="@);
    lemma_piece_is_added(a, none, "\nListenStream="@, "ListenStream="@, path, '\n');
    let b = a + "\nListenStream="@ + path;
    assert("\nSocketUser="@ =~= seq!['\n'] + "SocketUser="@);
    let one = none.push("ListenStream="@ + path);
    lemma_piece_is_added(b, one, "\nSocketUser="@, "SocketUser="@, user, '\n');
    let c = b + "\nSocketUser="@ + user;
    let two = one.push("SocketUser="@ + user);
    let end = Seq::<char>::empty();
    assert("\nSocketMode=0660"@ =~= seq!['\n'] + "SocketMode=0660"@);
    lemma_piece_is_added(c, two, "\nSocketMode=0660"@, "SocketMode=0660"@, end, '\n');
    let d = c + "\nSocketMode=0660"@ + end;
    assert("SocketMode=0660"@ + end =~= "SocketMode=0660"@);
    let three = two.push("SocketMode=0660"@);
    lemma_pieces_stay(d, three, seq!['\n'], '\n');
    assert("\nSocketMode=0660\n"@ =~= "\nSocketMode=0660"@ + end + seq!['\n']);
    assert(d + seq!['\n'] =~= c + "\nSocketMode=0660\n"@);
    assert(socket_unit_text(path, user) =~= d + seq!['\n']);
    assert(three =~= seq!["ListenStream="@ + path, "SocketUser="@ + user, "SocketMode=0660"@]);
}

/// The lines of a session's service that go before those that are the same for
/// every session.
spec fn service_head(
    home_dir: Seq<char>,
    shell: Seq<char>,
    username: Seq<char>,
    runtime_dir: Seq<char>,
    pipewire_socket_path: Seq<char>,
    pulse_socket_path: Seq<char>,
) -> Seq<char> {
    "[Service]\nType=simple"@
        + "\nWorkingDirectory="@ + home_dir
        + "\nEnvironment=HOME="@ + home_dir
        + "\nEnvironment=SHELL="@ + shell
        + "\nEnvironment=USER="@ + username
        + "\nEnvironment=LOGNAME="@ + username
        + "\nEnvironment=XDG_RUNTIME_DIR="@ + runtime_dir
        + "\nEnvironment=PIPEWIRE_REMOTE="@ + pipewire_socket_path
        + "\nEnvironment=PULSE_SERVER=unix:"@ + pulse_socket_path
}

proof fn lemma_service_head(
    home_dir: Seq<char>,
    shell: Seq<char>,
    username: Seq<char>,
    runtime_dir: Seq<char>,
    pipewire_socket_path: Seq<char>,
    pulse_socket_path: Seq<char>,
)
    ensures
        all_stand_whole(
            service_head(
                home_dir,
                shell,
                username,
                runtime_dir,
                pipewire_socket_path,
                pulse_socket_path,
            ),
            seq![
                "WorkingDirectory="@ + home_dir,
                "Environment=HOME="@ + home_dir,
                "Environment=SHELL="@ + shell,
                "Environment=USER="@ + username,
                "Environment=LOGNAME="@ + username,
                "Environment=XDG_RUNTIME_DIR="@ + runtime_dir,
                "Environment=PIPEWIRE_REMOTE="@ + pipewire_socket_path,
                "Environment=PULSE_SERVER=unix:"@ + pulse_socket_path,
            ],
            '\n',
        ),
{
    let p0 = Seq::<Seq<char>>::empty();
    let t0 = "[Service]\nType=simple"@;
    assert("\nWorkingDirectory="@ =~= seq!['\n'] + "WorkingDirectory="@) by {
        reveal_strlit("\nWorkingDirectory=");
        reveal_strlit("WorkingDirectory=");
    }
    lemma_piece_is_added(t0, p0, "\nWorkingDirectory="@, "WorkingDirectory="@, home_dir, '\n');
    let t1 = t0 + "\nWorkingDirectory="@ + home_dir;
    let p1 = p0.push("WorkingDirectory="@ + home_dir);
    assert("\nEnvironment=HOME="@ =~= seq!['\n'] + "Environment=HOME="@) by {
        reveal_strlit("\nEnvironment=HOME=");
        reveal_strlit("Environment=HOME=");
    }
    lemma_piece_is_added(t1, p1, "\nEnvironment=HOME="@, "Environment=HOME="@, home_dir, '\n');
    let t2 = t1 + "\nEnvironment=HOME="@ + home_dir;
    let p2 = p1.push("Environment=HOME="@ + home_dir);
    assert("\nEnvironment=SHELL="@ =~= seq!['\n'] + "Environment=SHELL="@) by {
        reveal_strlit("\nEnvironment=SHELL=");
        reveal_strlit("Environment=SHELL=");
    }
    lemma_piece_is_added(t2, p2, "\nEnvironment=SHELL="@, "Environment=SHELL="@, shell, '\n');
    let t3 = t2 + "\nEnvironment=SHELL="@ + shell;
    let p3 = p2.push("Environment=SHELL="@ + shell);
    assert("\nEnvironment=USER="@ =~= seq!['\n'] + "Environment=USER="@) by {
        reveal_strlit("\nEnvironment=USER=");
        reveal_strlit("Environment=USER=");
    }
    lemma_piece_is_added(t3, p3, "\nEnvironment=USER="@, "Environment=USER="@, username, '\n');
    let t4 = t3 + "\nEnvironment=USER="@ + username;
    let p4 = p3.push("Environment=USER="@ + username);
    assert("\nEnvironment=LOGNAME="@ =~= seq!['\n'] + "Environment=LOGNAME="@) by {
        reveal_strlit("\nEnvironment=LOGNAME=");
        reveal_strlit("Environment=LOGNAME=");
    }
    lemma_piece_is_added(t4, p4, "\nEnvironment=LOGNAME="@, "Environment=LOGNAME="@, username, '\n');
    let t5 = t4 + "\nEnvironment=LOGNAME="@ + username;
    let p5 = p4.push("Environment=LOGNAME="@ + username);
    assert("\nEnvironment=XDG_RUNTIME_DIR="@ =~= seq!['\n'] + "Environment=XDG_RUNTIME_DIR="@) by {
        reveal_strlit("\nEnvironment=XDG_RUNTIME_DIR=");
        reveal_strlit("Environment=XDG_RUNTIME_DIR=");
    }
    lemma_piece_is_added(t5, p5, "\nEnvironment=XDG_RUNTIME_DIR="@, "Environment=XDG_RUNTIME_DIR="@, runtime_dir, '\n');
    let t6 = t5 + "\nEnvironment=XDG_RUNTIME_DIR="@ + runtime_dir;
    let p6 = p5.push("Environment=XDG_RUNTIME_DIR="@ + runtime_dir);
    assert("\nEnvironment=PIPEWIRE_REMOTE="@ =~= seq!['\n'] + "Environment=PIPEWIRE_REMOTE="@) by {
        reveal_strlit("\nEnvironment=PIPEWIRE_REMOTE=");
        reveal_strlit("Environment=PIPEWIRE_REMOTE=");
    }
    lemma_piece_is_added(t6, p6, "\nEnvironment=PIPEWIRE_REMOTE="@, "Environment=PIPEWIRE_REMOTE="@, pipewire_socket_path, '\n');
    let t7 = t6 + "\nEnvironment=PIPEWIRE_REMOTE="@ + pipewire_socket_path;
    let p7 = p6.push("Environment=PIPEWIRE_REMOTE="@ + pipewire_socket_path);
    assert("\nEnvironment=PULSE_SERVER=unix:"@ =~= seq!['\n'] + "Environment=PULSE_SERVER=unix:"@) by {
        reveal_strlit("\nEnvironment=PULSE_SERVER=unix:");
        reveal_strlit("Environment=PULSE_SERVER=unix:");
    }
    lemma_piece_is_added(t7, p7, "\nEnvironment=PULSE_SERVER=unix:"@, "Environment=PULSE_SERVER=unix:"@, pulse_socket_path, '\n');
    let t8 = t7 + "\nEnvironment=PULSE_SERVER=unix:"@ + pulse_socket_path;
    let p8 = p7.push("Environment=PULSE_SERVER=unix:"@ + pulse_socket_path);
    assert(p8 =~= seq![
        "WorkingDirectory="@ + home_dir,
        "Environment=HOME="@ + home_dir,
        "Environment=SHELL="@ + shell,
        "Environment=USER="@ + username,
        "Environment=LOGNAME="@ + username,
        "Environment=XDG_RUNTIME_DIR="@ + runtime_dir,
        "Environment=PIPEWIRE_REMOTE="@ + pipewire_socket_path,
        "Environment=PULSE_SERVER=unix:"@ + pulse_socket_path,
    ]);
}

/// A session's service runs in the user's home, as the user, with the session's
/// own runtime directory and with the shared PipeWire and PulseAudio sockets; its
/// logging rules are those that were asked for, and what it starts is the command
/// that it was given.
pub proof fn law_the_service_unit_says_what_it_was_given(
    home_dir: Seq<char>,
    shell: Seq<char>,
    username: Seq<char>,
    runtime_dir: Seq<char>,
    pipewire_socket_path: Seq<char>,
    pulse_socket_path: Seq<char>,
    logging_rules: Option<Seq<char>>,
    exec_start: Seq<char>,
)
    ensures
        ({
            let text = service_unit_text(
                home_dir,
                shell,
                username,
                runtime_dir,
                pipewire_socket_path,
                pulse_socket_path,
                logging_rules,
                exec_start,
            );
            &&& all_stand_whole(
                text,
                seq![
                    "WorkingDirectory="@ + home_dir,
                    "Environment=HOME="@ + home_dir,
                    "Environment=SHELL="@ + shell,
                    "Environment=USER="@ + username,
                    "Environment=LOGNAME="@ + username,
                    "Environment=XDG_RUNTIME_DIR="@ + runtime_dir,
                    "Environment=PIPEWIRE_REMOTE="@ + pipewire_socket_path,
                    "Environment=PULSE_SERVER=unix:"@ + pulse_socket_path,
                ],
                '\n',
            )
            &&& stands_whole(text, "ExecStart="@ + exec_start, '\n')
            &&& logging_rules matches Some(rules) ==> stands_whole(
                text,
                "Environment=QT_LOGGING_RULES="@ + rules,
                '\n',
            )
        }),
{
    let text = service_unit_text(
        home_dir,
        shell,
        username,
        runtime_dir,
        pipewire_socket_path,
        pulse_socket_path,
        logging_rules,
        exec_start,
    );
    let head = service_head(
        home_dir,
        shell,
        username,
        runtime_dir,
        pipewire_socket_path,
        pulse_socket_path,
    );
    let same = "\nEnvironment=KWIN_PLATFORM=virtual\nEnvironment=KWIN_WAYLAND_NO_PERMISSION_CHECKS=1\nEnvironment=LIBGL_ALWAYS_SOFTWARE=1\nEnvironment=XDG_SESSION_TYPE=wayland\nEnvironment=XDG_CURRENT_DESKTOP=KDE\nEnvironment=DESKTOP_SESSION=plasma\nEnvironment=KDE_FULL_SESSION=true\nEnvironment=KDE_SESSION_VERSION=6\nEnvironment=XDG_DATA_DIRS=/usr/local/share:/usr/share\nEnvironment=XDG_CONFIG_DIRS=/etc/xdg\nEnvironment=XDG_MENU_PREFIX=plasma-\n"@;
    lemma_service_head(
        home_dir,
        shell,
        username,
        runtime_dir,
        pipewire_socket_path,
        pulse_socket_path,
    );
    let parts = seq![
        "WorkingDirectory="@ + home_dir,
        "Environment=HOME="@ + home_dir,
        "Environment=SHELL="@ + shell,
        "Environment=USER="@ + username,
        "Environment=LOGNAME="@ + username,
        "Environment=XDG_RUNTIME_DIR="@ + runtime_dir,
        "Environment=PIPEWIRE_REMOTE="@ + pipewire_socket_path,
        "Environment=PULSE_SERVER=unix:"@ + pulse_socket_path,
    ];
    assert("[Service]\nType=simple\nWorkingDirectory="@ == "[Service]\nType=simple"@
        + "\nWorkingDirectory="@) by {
        reveal_strlit("[Service]\nType=simple\nWorkingDirectory=");
        reveal_strlit("[Service]\nType=simple");
        reveal_strlit("\nWorkingDirectory=");
    }
    assert("\n"@ == seq!['\n']) by {
        reveal_strlit("\n");
    }
    lemma_same_lines();
    match logging_rules {
        None => {
            lemma_plain_tail(head, same, "ExecStart="@, exec_start, "\n"@);
            let rest = same + ("ExecStart="@ + (exec_start + "\n"@));
            assert(rest[0] == '\n');
            lemma_pieces_stay(head, parts, rest, '\n');
            lemma_stands_whole(text, head + same, "ExecStart="@ + exec_start, "\n"@, '\n');
        },
        Some(r) => {
            let key = "Environment=QT_LOGGING_RULES="@;
            lemma_ruled_tail(head, same, key, r, "\n"@, "ExecStart="@, exec_start);
            let rest = same + (key + (r + ("\n"@ + ("ExecStart="@ + (exec_start + "\n"@)))));
            assert(rest[0] == '\n');
            lemma_pieces_stay(head, parts, rest, '\n');
            let front = head + same + (key + r + "\n"@);
            assert(front.last() == '\n');
            lemma_stands_whole(text, front, "ExecStart="@ + exec_start, "\n"@, '\n');
            let behind = "\n"@ + "ExecStart="@ + exec_start + "\n"@;
            assert(behind[0] == '\n');
            lemma_stands_whole(text, head + same, key + r, behind, '\n');
        },
    }
}

proof fn lemma_plain_tail(
    head: Seq<char>,
    same: Seq<char>,
    key: Seq<char>,
    value: Seq<char>,
    end: Seq<char>,
)
    ensures
        head + same + key + value + end == head + (same + (key + (value + end))),
        head + same + key + value + end == (head + same) + (key + value) + end,
{
    broadcast use lemma_cat;

}

proof fn lemma_ruled_tail(
    head: Seq<char>,
    same: Seq<char>,
    key: Seq<char>,
    value: Seq<char>,
    end: Seq<char>,
    next: Seq<char>,
    last: Seq<char>,
)
    ensures
        head + same + key + value + end + next + last + end == head + (same + (key + (value + (end
            + (next + (last + end)))))),
        head + same + key + value + end + next + last + end == (head + same + (key + value + end))
            + (next + last) + end,
        head + same + key + value + end + next + last + end == (head + same) + (key + value) + (end
            + next + last + end),
{
    broadcast use lemma_cat;

}

proof fn lemma_same_lines()
    ensures
        ({
            let same = "\nEnvironment=KWIN_PLATFORM=virtual\nEnvironment=KWIN_WAYLAND_NO_PERMISSION_CHECKS=1\nEnvironment=LIBGL_ALWAYS_SOFTWARE=1\nEnvironment=XDG_SESSION_TYPE=wayland\nEnvironment=XDG_CURRENT_DESKTOP=KDE\nEnvironment=DESKTOP_SESSION=plasma\nEnvironment=KDE_FULL_SESSION=true\nEnvironment=KDE_SESSION_VERSION=6\nEnvironment=XDG_DATA_DIRS=/usr/local/share:/usr/share\nEnvironment=XDG_CONFIG_DIRS=/etc/xdg\nEnvironment=XDG_MENU_PREFIX=plasma-\n"@;
            same.len() > 1 && same[0] == '\n' && same.last() == '\n'
        }),
{
    reveal_strlit(
        "\nEnvironment=KWIN_PLATFORM=virtual\nEnvironment=KWIN_WAYLAND_NO_PERMISSION_CHECKS=1\nEnvironment=LIBGL_ALWAYS_SOFTWARE=1\nEnvironment=XDG_SESSION_TYPE=wayland\nEnvironment=XDG_CURRENT_DESKTOP=KDE\nEnvironment=DESKTOP_SESSION=plasma\nEnvironment=KDE_FULL_SESSION=true\nEnvironment=KDE_SESSION_VERSION=6\nEnvironment=XDG_DATA_DIRS=/usr/local/share:/usr/share\nEnvironment=XDG_CONFIG_DIRS=/etc/xdg\nEnvironment=XDG_MENU_PREFIX=plasma-\n",
    );
}

/// The start of a payload's script, up to the PulseAudio socket that it names last.
spec fn script_front(
    runtime_dir: Seq<char>,
    socket_name: Seq<char>,
    pipewire_socket_path: Seq<char>,
    pulse_socket_path: Seq<char>,
) -> Seq<char> {
    "#!/bin/sh\n"@ + "export PULSE_SERVER=unix:"@ + pulse_socket_path + "\n"@
        + "dbus-update-activation-environment --systemd"@ + " WAYLAND_DISPLAY="@ + socket_name
        + " XDG_RUNTIME_DIR="@ + runtime_dir + " PIPEWIRE_REMOTE="@ + pipewire_socket_path
}

proof fn lemma_script_shape(
    runtime_dir: Seq<char>,
    socket_name: Seq<char>,
    pipewire_socket_path: Seq<char>,
    pulse_socket_path: Seq<char>,
    payload: Seq<Seq<char>>,
)
    ensures
        session_script(
            runtime_dir,
            socket_name,
            pipewire_socket_path,
            pulse_socket_path,
            payload,
        ) == script_front(runtime_dir, socket_name, pipewire_socket_path, pulse_socket_path) + ((
        " PULSE_SERVER=unix:"@ + pulse_socket_path + "\n"@) + (("exec "@ + command_line(payload))
            + "\n"@)),
{
    assert("#!/bin/sh\nexport PULSE_SERVER=unix:"@ == "#!/bin/sh\n"@
        + "export PULSE_SERVER=unix:"@) by {
        reveal_strlit("#!/bin/sh\nexport PULSE_SERVER=unix:");
        reveal_strlit("#!/bin/sh\n");
        reveal_strlit("export PULSE_SERVER=unix:");
    }
    assert("\ndbus-update-activation-environment --systemd WAYLAND_DISPLAY="@ == "\n"@ + (
    "dbus-update-activation-environment --systemd"@ + " WAYLAND_DISPLAY="@)) by {
        reveal_strlit("\ndbus-update-activation-environment --systemd WAYLAND_DISPLAY=");
        reveal_strlit("\n");
        reveal_strlit("dbus-update-activation-environment --systemd");
        reveal_strlit(" WAYLAND_DISPLAY=");
    }
    assert("\nexec "@ == "\n"@ + "exec "@) by {
        reveal_strlit("\nexec ");
        reveal_strlit("\n");
        reveal_strlit("exec ");
    }
    broadcast use lemma_cat;

}

/// A payload's script tells the session's other programs of the session's socket
/// and runtime directory, and of the shared PipeWire and PulseAudio sockets.
pub proof fn law_the_script_sets_the_session_up(
    runtime_dir: Seq<char>,
    socket_name: Seq<char>,
    pipewire_socket_path: Seq<char>,
    pulse_socket_path: Seq<char>,
    payload: Seq<Seq<char>>,
)
    ensures
        ({
            let text = session_script(
                runtime_dir,
                socket_name,
                pipewire_socket_path,
                pulse_socket_path,
                payload,
            );
            &&& all_stand_whole(
                text,
                seq![
                    "WAYLAND_DISPLAY="@ + socket_name,
                    "XDG_RUNTIME_DIR="@ + runtime_dir,
                    "PIPEWIRE_REMOTE="@ + pipewire_socket_path,
                ],
                ' ',
            )
            &&& contains_text(text, " PULSE_SERVER=unix:"@ + pulse_socket_path + "\n"@)
        }),
{
    let text = session_script(
        runtime_dir,
        socket_name,
        pipewire_socket_path,
        pulse_socket_path,
        payload,
    );
    lemma_script_shape(
        runtime_dir,
        socket_name,
        pipewire_socket_path,
        pulse_socket_path,
        payload,
    );
    assert(" WAYLAND_DISPLAY="@ == seq![' '] + "WAYLAND_DISPLAY="@) by {
        reveal_strlit(" WAYLAND_DISPLAY=");
        reveal_strlit("WAYLAND_DISPLAY=");
    }
    assert(" XDG_RUNTIME_DIR="@ == seq![' '] + "XDG_RUNTIME_DIR="@) by {
        reveal_strlit(" XDG_RUNTIME_DIR=");
        reveal_strlit("XDG_RUNTIME_DIR=");
    }
    assert(" PIPEWIRE_REMOTE="@ == seq![' '] + "PIPEWIRE_REMOTE="@) by {
        reveal_strlit(" PIPEWIRE_REMOTE=");
        reveal_strlit("PIPEWIRE_REMOTE=");
    }
    assert(" PULSE_SERVER=unix:"@ == seq![' '] + "PULSE_SERVER=unix:"@) by {
        reveal_strlit(" PULSE_SERVER=unix:");
        reveal_strlit("PULSE_SERVER=unix:");
    }
    let t0 = "#!/bin/sh\n"@ + "export PULSE_SERVER=unix:"@ + pulse_socket_path + "\n"@
        + "dbus-update-activation-environment --systemd"@;
    let t1 = t0 + " WAYLAND_DISPLAY="@ + socket_name;
    let t2 = t1 + " XDG_RUNTIME_DIR="@ + runtime_dir;
    let t3 = t2 + " PIPEWIRE_REMOTE="@ + pipewire_socket_path;
    let pulse = " PULSE_SERVER=unix:"@ + pulse_socket_path + "\n"@;
    let call = ("exec "@ + command_line(payload)) + "\n"@;
    let p0 = Seq::<Seq<char>>::empty();
    lemma_piece_is_added(t0, p0, " WAYLAND_DISPLAY="@, "WAYLAND_DISPLAY="@, socket_name, ' ');
    let p1 = p0.push("WAYLAND_DISPLAY="@ + socket_name);
    lemma_piece_is_added(t1, p1, " XDG_RUNTIME_DIR="@, "XDG_RUNTIME_DIR="@, runtime_dir, ' ');
    let p2 = p1.push("XDG_RUNTIME_DIR="@ + runtime_dir);
    lemma_piece_is_added(
        t2,
        p2,
        " PIPEWIRE_REMOTE="@,
        "PIPEWIRE_REMOTE="@,
        pipewire_socket_path,
        ' ',
    );
    let p3 = p2.push("PIPEWIRE_REMOTE="@ + pipewire_socket_path);
    assert((pulse + call)[0] == ' ');
    lemma_pieces_stay(t3, p3, pulse + call, ' ');
    assert(p3 =~= seq![
        "WAYLAND_DISPLAY="@ + socket_name,
        "XDG_RUNTIME_DIR="@ + runtime_dir,
        "PIPEWIRE_REMOTE="@ + pipewire_socket_path,
    ]);
    lemma_contains(text, t3, pulse, call);
}

/// A payload's script is one for the shell, has the shared PulseAudio socket in its
/// environment, and becomes a command that a shell reads as the payload.
pub proof fn law_the_script_starts_the_payload(
    runtime_dir: Seq<char>,
    socket_name: Seq<char>,
    pipewire_socket_path: Seq<char>,
    pulse_socket_path: Seq<char>,
    payload: Seq<Seq<char>>,
)
    ensures
        ({
            let text = session_script(
                runtime_dir,
                socket_name,
                pipewire_socket_path,
                pulse_socket_path,
                payload,
            );
            &&& has_prefix(text, "#!/bin/sh\n"@)
            &&& stands_whole(text, "export PULSE_SERVER=unix:"@ + pulse_socket_path, '\n')
            &&& exists|line: Seq<char>| #[trigger]
                stands_whole(text, "exec "@ + line, '\n') && ShellReader::start().run(
                    line,
                ).finished() == payload
        }),
{
    let text = session_script(
        runtime_dir,
        socket_name,
        pipewire_socket_path,
        pulse_socket_path,
        payload,
    );
    lemma_script_shape(
        runtime_dir,
        socket_name,
        pipewire_socket_path,
        pulse_socket_path,
        payload,
    );
    assert("\n"@ == seq!['\n']) by {
        reveal_strlit("\n");
    }
    assert("#!/bin/sh\n"@.len() > 0 && "#!/bin/sh\n"@.last() == '\n') by {
        reveal_strlit("#!/bin/sh\n");
    }
    let export = "export PULSE_SERVER=unix:"@ + pulse_socket_path;
    let call = "exec "@ + command_line(payload);
    let front = script_front(runtime_dir, socket_name, pipewire_socket_path, pulse_socket_path);
    let pulse = " PULSE_SERVER=unix:"@ + pulse_socket_path + "\n"@;
    let rest = "dbus-update-activation-environment --systemd"@ + " WAYLAND_DISPLAY="@ + socket_name
        + " XDG_RUNTIME_DIR="@ + runtime_dir + " PIPEWIRE_REMOTE="@ + pipewire_socket_path + (pulse
        + (call + "\n"@));
    assert(text == "#!/bin/sh\n"@ + (export + ("\n"@ + rest))) by {
        broadcast use lemma_cat;

    }
    lemma_nothing_cat(text);
    lemma_contains(text, seq![], "#!/bin/sh\n"@, export + ("\n"@ + rest));
    lemma_cat("#!/bin/sh\n"@, export, "\n"@ + rest);
    lemma_stands_whole(text, "#!/bin/sh\n"@, export, "\n"@ + rest, '\n');
    lemma_cat(front, pulse, call + "\n"@);
    lemma_cat(front + pulse, call, "\n"@);
    assert((front + pulse).last() == '\n');
    lemma_stands_whole(text, front + pulse, call, "\n"@, '\n');
    law_shell_reads_the_payload_back(payload);
}

} // verus!
