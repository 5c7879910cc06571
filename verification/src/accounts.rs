//! What the system says of users and of the sessions they are logged in to.

use vstd::prelude::*;

use crate::command::{Invocation, InvocationView};
use crate::numbers::{
    decimal, is_digit, law_decimal_reads_back, lemma_decimal_is_digits, parse_u32, read_integer,
    signed_decimal, ParseIntError,
};
use crate::text::{
    chars_of, contains_text, debug_text, find_first, first_at, law_the_first_place_is_the_first,
    lemma_run_before, lemma_split_at, lemma_split_one, lines, occurs_at, quoted, run_before, split,
    split_lines, split_on, stands_at, string_of, texts, trim, trimmed,
};

verus! {

broadcast use crate::text::lemma_texts_push;

/// What stands before the name of a logind session in a control group's path.
pub const SESSION_MARKER: &'static str = "/session-";

/// A text without `suffix` at its end, where it has it.
pub open spec fn without_suffix(s: Seq<char>, suffix: Seq<char>) -> Seq<char> {
    if suffix.len() <= s.len() && occurs_at(s, suffix, s.len() - suffix.len()) {
        s.take(s.len() - suffix.len())
    } else {
        s
    }
}

/// The logind session that a line of `/proc/<pid>/cgroup` names: what follows
/// the first marker, up to the next `/`, without `.scope`. An empty name is
/// none.
pub open spec fn session_in_line(line: Seq<char>) -> Option<Seq<char>> {
    match first_at(line, SESSION_MARKER@) {
        None => None,
        Some(i) => {
            let rest = line.skip(i + SESSION_MARKER@.len() as int);
            let id = without_suffix(rest.take(run_before(rest, '/') as int), ".scope"@);
            if id.len() == 0 {
                None
            } else {
                Some(id)
            }
        },
    }
}

/// The first session that any of the lines names.
pub open spec fn session_in_lines(all: Seq<Seq<char>>) -> Option<Seq<char>>
    decreases all.len(),
{
    if all.len() == 0 {
        None
    } else {
        match session_in_line(all[0]) {
            Some(id) => Some(id),
            None => session_in_lines(all.drop_first()),
        }
    }
}

fn strip_scope(segment: &str) -> (id: String)
    ensures
        id@ == without_suffix(segment@, ".scope"@),
{
    assert(".scope"@.len() == 6) by {
        reveal_strlit(".scope");
    }
    let chars = chars_of(segment);
    if chars.len() >= 6 && stands_at(&chars, &chars_of(".scope"), chars.len() - 6) {
        let id = string_of(&chars, 0, chars.len() - 6);
        assert(id@ =~= segment@.take(segment@.len() - 6));
        id
    } else {
        segment.to_string()
    }
}

/// What stands from `from` on, up to the next `/`.
fn segment_at(chars: &Vec<char>, from: usize) -> (out: String)
    requires
        from <= chars@.len(),
    ensures
        out@ == chars@.skip(from as int).take(
            run_before(chars@.skip(from as int), '/') as int,
        ),
{
    let mut to: usize = from;
    while to < chars.len() && chars[to] != '/'
        invariant
            from <= to <= chars@.len(),
            forall|j: int| from <= j < to ==> chars@[j] != '/',
        decreases chars@.len() - to,
    {
        to += 1;
    }
    proof {
        let rest = chars@.skip(from as int);
        assert forall|j: int| 0 <= j < to - from implies rest[j] != '/' by {
            assert(rest[j] == chars@[from + j]);
        }
        if to < chars@.len() {
            assert(rest[to - from] == chars@[to as int]);
        }
        lemma_run_before(rest, '/', to - from);
        assert(chars@.subrange(from as int, to as int) =~= rest.take(to - from));
    }
    string_of(chars, from, to)
}

fn parse_line(line: &str) -> (r: Option<String>)
    ensures
        match r {
            Some(id) => session_in_line(line@) == Some(id@),
            None => session_in_line(line@) is None,
        },
{
    let chars = chars_of(line);
    assert(SESSION_MARKER@.len() == 9) by {
        reveal_strlit("/session-");
    }
    match find_first(&chars, SESSION_MARKER) {
        None => None,
        Some(idx) => {
            let segment = segment_at(&chars, idx + 9);
            let id = strip_scope(segment.as_str());
            if chars_of(id.as_str()).len() == 0 {
                return None;
            }
            Some(id)
        },
    }
}

/// The logind session that a process is in, by what `/proc/<pid>/cgroup` holds.
pub fn parse_logind_session_id(cgroup_contents: &str) -> (r: Option<String>)
    ensures
        match r {
            Some(id) => session_in_lines(lines(cgroup_contents@)) == Some(id@),
            None => session_in_lines(lines(cgroup_contents@)) is None,
        },
{
    let all = split_lines(cgroup_contents);
    let mut i: usize = 0;
    assert(texts(all@).skip(0) =~= texts(all@));
    while i < all.len()
        invariant
            texts(all@) == lines(cgroup_contents@),
            i <= all@.len(),
            session_in_lines(lines(cgroup_contents@)) == session_in_lines(
                texts(all@).skip(i as int),
            ),
        decreases all@.len() - i,
    {
        assert(texts(all@).skip(i as int)[0] == all@[i as int]@);
        assert(texts(all@).skip(i as int).drop_first() =~= texts(all@).skip(i + 1));
        let id = parse_line(all[i].as_str());
        if id.is_some() {
            return id;
        }
        i += 1;
    }
    None
}

/// A session that is named is never the empty one.
pub proof fn law_session_names_are_not_empty(all: Seq<Seq<char>>)
    ensures
        session_in_lines(all) matches Some(id) ==> id.len() > 0,
    decreases all.len(),
{
    if all.len() > 0 {
        law_session_names_are_not_empty(all.drop_first());
    }
}

/// A process whose control group lies in the scope of a logind session, at any
/// depth, is found to be in that session.
pub proof fn law_scope_names_its_session(front: Seq<char>, id: Seq<char>, tail: Seq<char>)
    requires
        first_at(front + SESSION_MARKER@ + id + ".scope"@ + tail, SESSION_MARKER@) == Some(
            front.len() as int,
        ),
        id.len() > 0,
        forall|i: int| 0 <= i < id.len() ==> id[i] != '/',
        tail.len() > 0 ==> tail[0] == '/',
    ensures
        session_in_line(front + SESSION_MARKER@ + id + ".scope"@ + tail) == Some(id),
{
    let line = front + SESSION_MARKER@ + id + ".scope"@ + tail;
    let rest = line.skip(front.len() + SESSION_MARKER@.len() as int);
    assert(rest =~= id + ".scope"@ + tail);
    lemma_scope_segment(id, tail);
}

proof fn lemma_scope_segment(id: Seq<char>, tail: Seq<char>)
    requires
        forall|i: int| 0 <= i < id.len() ==> id[i] != '/',
        tail.len() > 0 ==> tail[0] == '/',
    ensures
        ({
            let rest = id + ".scope"@ + tail;
            without_suffix(rest.take(run_before(rest, '/') as int), ".scope"@) == id
        }),
{
    let scope = ".scope"@;
    assert(scope.len() == 6 && forall|j: int| 0 <= j < 6 ==> scope[j] != '/') by {
        reveal_strlit(".scope");
    }
    let segment = id + scope;
    let rest = segment + tail;
    let n = segment.len() as int;
    assert forall|j: int| 0 <= j < n implies rest[j] != '/' by {
        if j < id.len() {
            assert(rest[j] == id[j]);
        } else {
            assert(rest[j] == scope[j - id.len()]);
        }
    }
    assert(n < rest.len() ==> rest[n] == tail[0]);
    lemma_run_before(rest, '/', n);
    assert(rest.take(n) =~= segment);
    assert(segment.subrange(id.len() as int, n) =~= scope);
    assert(segment.take(id.len() as int) =~= id);
}

/// An account of the system.
pub struct UserEntry {
    pub uid: u32,
    pub gid: u32,
    pub home: String,
    pub shell: String,
}

/// What `getent passwd` came to.
pub enum Getent {
    /// It could not be run, for this reason.
    NotRun(String),
    /// It failed, with this exit status.
    Failed(String),
    /// It printed this.
    Printed(String),
}

/// Looks a user up.
pub fn getent_command(username: &str) -> (command: Invocation)
    ensures
        command@ == InvocationView::plain("getent"@, seq!["passwd"@, username@]),
{
    let mut command = Invocation::new("getent");
    command.arg("passwd");
    command.arg(username);
    command
}

/// The colon-separated fields of a password entry.
pub open spec fn passwd_fields(line: Seq<char>) -> Seq<Seq<char>> {
    split(trimmed(line), ':')
}

/// Why a printed password entry cannot be used, where it cannot.
pub open spec fn entry_error(username: Seq<char>, line: Seq<char>) -> Option<Seq<char>> {
    let fields = passwd_fields(line);
    if fields.len() < 7 {
        Some("could not parse getent passwd "@ + username + " output: "@ + debug_text(line))
    } else if fields[5].len() == 0 {
        Some("empty home directory in getent passwd "@ + username + " output: "@ + debug_text(line))
    } else {
        match read_integer(fields[2], 0, u32::MAX as int) {
            Err(e) => Some("invalid uid in getent passwd "@ + username + " output: "@ + e.text()),
            Ok(_) => match read_integer(fields[3], 0, u32::MAX as int) {
                Err(e) => Some(
                    "invalid gid in getent passwd "@ + username + " output: "@ + e.text(),
                ),
                Ok(_) => None,
            },
        }
    }
}

/// Whether an entry is what a printed line says.
pub open spec fn is_entry(entry: UserEntry, line: Seq<char>) -> bool {
    let fields = passwd_fields(line);
    &&& read_integer(fields[2], 0, u32::MAX as int) == Ok::<int, ParseIntError>(entry.uid as int)
    &&& read_integer(fields[3], 0, u32::MAX as int) == Ok::<int, ParseIntError>(entry.gid as int)
    &&& entry.home@ == fields[5]
    &&& entry.shell@ == fields[6]
}

/// The account of a user, by what `getent passwd` came to.
pub fn resolve_user(username: &str, getent: Getent) -> (r: Result<UserEntry, String>)
    ensures
        match getent {
            Getent::NotRun(e) => r matches Err(m) && m@ == "failed to run getent passwd "@
                + username@ + ": "@ + e@,
            Getent::Failed(status) => r matches Err(m) && m@ == "getent passwd "@ + username@
                + " exited with "@ + status@,
            Getent::Printed(line) => match r {
                Ok(entry) => entry_error(username@, line@) is None && is_entry(entry, line@),
                Err(m) => entry_error(username@, line@) == Some(m@),
            },
        },
{
    match getent {
        Getent::NotRun(e) => {
            let mut m = "failed to run getent passwd ".to_string();
            m.append(username);
            m.append(": ");
            m.append(e.as_str());
            Err(m)
        },
        Getent::Failed(status) => {
            let mut m = "getent passwd ".to_string();
            m.append(username);
            m.append(" exited with ");
            m.append(status.as_str());
            Err(m)
        },
        Getent::Printed(line) => parse_entry(username, line.as_str()),
    }
}

fn parse_entry(username: &str, line: &str) -> (r: Result<UserEntry, String>)
    ensures
        match r {
            Ok(entry) => entry_error(username@, line@) is None && is_entry(entry, line@),
            Err(m) => entry_error(username@, line@) == Some(m@),
        },
{
    let fields = split_on(trim(line).as_str(), ':');
    if fields.len() < 7 {
        let mut m = "could not parse getent passwd ".to_string();
        m.append(username);
        m.append(" output: ");
        m.append(quoted(line).as_str());
        return Err(m);
    }
    assert(texts(fields@)[2] == fields@[2]@);
    assert(texts(fields@)[3] == fields@[3]@);
    assert(texts(fields@)[5] == fields@[5]@);
    assert(texts(fields@)[6] == fields@[6]@);
    if chars_of(fields[5].as_str()).len() == 0 {
        let mut m = "empty home directory in getent passwd ".to_string();
        m.append(username);
        m.append(" output: ");
        m.append(quoted(line).as_str());
        return Err(m);
    }
    match parse_u32(fields[2].as_str()) {
        Err(e) => {
            let mut m = "invalid uid in getent passwd ".to_string();
            m.append(username);
            m.append(" output: ");
            m.append(e.message());
            Err(m)
        },
        Ok(uid) => match parse_u32(fields[3].as_str()) {
            Err(e) => {
                let mut m = "invalid gid in getent passwd ".to_string();
                m.append(username);
                m.append(" output: ");
                m.append(e.message());
                Err(m)
            },
            Ok(gid) => Ok(
                UserEntry { uid, gid, home: fields[5].clone(), shell: fields[6].clone() },
            ),
        },
    }
}

/// A user whose entry reads in the seven fields of a password file has the numbers,
/// the home directory and the shell that the entry gives, whatever the other fields
/// hold.
pub proof fn law_entries_read_as_they_are_written(
    printed: Seq<char>,
    username: Seq<char>,
    name: Seq<char>,
    password: Seq<char>,
    uid: u32,
    gid: u32,
    comment: Seq<char>,
    home: Seq<char>,
    shell: Seq<char>,
    entry: UserEntry,
)
    requires
        forall|i: int| 0 <= i < name.len() ==> name[i] != ':',
        forall|i: int| 0 <= i < password.len() ==> password[i] != ':',
        forall|i: int| 0 <= i < comment.len() ==> comment[i] != ':',
        forall|i: int| 0 <= i < home.len() ==> home[i] != ':',
        forall|i: int| 0 <= i < shell.len() ==> shell[i] != ':',
        home.len() > 0,
        trimmed(printed) == name + seq![':'] + (password + seq![':'] + (decimal(uid as nat) + seq![
            ':',
        ] + (decimal(gid as nat) + seq![':'] + (comment + seq![':'] + (home + seq![':'] + shell))))),
    ensures
        entry_error(username, printed) is None,
        is_entry(entry, printed) <==> entry.uid == uid && entry.gid == gid && entry.home@ == home
            && entry.shell@ == shell,
{
    let u = decimal(uid as nat);
    let g = decimal(gid as nat);
    let t6 = home + seq![':'] + shell;
    let t5 = comment + seq![':'] + t6;
    let t4 = g + seq![':'] + t5;
    let t3 = u + seq![':'] + t4;
    let t2 = password + seq![':'] + t3;
    lemma_decimal_is_digits(uid as nat);
    lemma_decimal_is_digits(gid as nat);
    assert forall|i: int| 0 <= i < u.len() implies u[i] != ':' by {
        assert(is_digit(u[i]));
    }
    assert forall|i: int| 0 <= i < g.len() implies g[i] != ':' by {
        assert(is_digit(g[i]));
    }
    lemma_split_at(name, t2, ':');
    lemma_split_at(password, t3, ':');
    lemma_split_at(u, t4, ':');
    lemma_split_at(g, t5, ':');
    lemma_split_at(comment, t6, ':');
    lemma_split_at(home, shell, ':');
    lemma_split_one(name, ':');
    lemma_split_one(password, ':');
    lemma_split_one(u, ':');
    lemma_split_one(g, ':');
    lemma_split_one(comment, ':');
    lemma_split_one(home, ':');
    lemma_split_one(shell, ':');
    let fields = passwd_fields(printed);
    assert(fields =~= seq![name, password, u, g, comment, home, shell]);
    assert(signed_decimal(uid as int) == u && signed_decimal(gid as int) == g);
    law_decimal_reads_back(uid as int, 0, u32::MAX as int);
    law_decimal_reads_back(gid as int, 0, u32::MAX as int);
}

/// A process is in the session that the first line that names one names; where no
/// line does, it is in none.
pub proof fn law_the_first_named_session_counts(
    before: Seq<Seq<char>>,
    line: Seq<char>,
    rest: Seq<Seq<char>>,
)
    requires
        forall|i: int| 0 <= i < before.len() ==> session_in_line(#[trigger] before[i]) is None,
    ensures
        session_in_line(line) is Some ==> session_in_lines(before + seq![line] + rest)
            == session_in_line(line),
        session_in_lines(before) is None,
    decreases before.len(),
{
    let all = before + seq![line] + rest;
    if before.len() > 0 {
        let fewer = before.drop_first();
        assert forall|i: int| 0 <= i < fewer.len() implies session_in_line(
            #[trigger] fewer[i],
        ) is None by {
            assert(fewer[i] == before[i + 1]);
        }
        law_the_first_named_session_counts(fewer, line, rest);
        assert(all.drop_first() =~= fewer + seq![line] + rest);
        assert(session_in_line(before[0]) is None);
    }
}

/// A process whose control group lies below a logind session that is no scope is found to
/// be in it too; and a line without the marker names no session.
pub proof fn law_sessions_are_named_without_their_scope(
    front: Seq<char>,
    id: Seq<char>,
    tail: Seq<char>,
    line: Seq<char>,
)
    requires
        first_at(front + "/session-"@ + id + tail, "/session-"@) == Some(front.len() as int),
        id.len() > 0,
        forall|i: int| 0 <= i < id.len() ==> id[i] != '/',
        tail.len() > 0 ==> tail[0] == '/',
        id.len() < 6 || id.skip(id.len() - 6) != ".scope"@,
    ensures
        session_in_line(front + "/session-"@ + id + tail) == Some(id),
        !contains_text(line, "/session-"@) ==> session_in_line(line) is None,
{
    let whole = front + "/session-"@ + id + tail;
    reveal_strlit(".scope");
    let rest = whole.skip(front.len() + "/session-"@.len() as int);
    assert(rest =~= id + tail);
    let n = id.len() as int;
    assert forall|j: int| 0 <= j < n implies rest[j] != '/' by {
        assert(rest[j] == id[j]);
    }
    if tail.len() > 0 {
        assert(rest[n] == tail[0]);
    }
    lemma_run_before(rest, '/', n);
    assert(rest.take(n) =~= id);
    if n >= 6 {
        assert(id.subrange(n - 6, n) =~= id.skip(n - 6));
    }
    if !contains_text(line, "/session-"@) {
        law_the_first_place_is_the_first(line, SESSION_MARKER@);
    }
}

/// An entry is refused exactly where it has fewer than seven fields, names no home
/// directory, or has a user or group number that is none.
pub proof fn law_entries_are_refused_for_what_they_lack(username: Seq<char>, line: Seq<char>)
    ensures
        ({
            let fields = split(trimmed(line), ':');
            entry_error(username, line) is Some <==> {
                ||| fields.len() < 7
                ||| fields[5].len() == 0
                ||| read_integer(fields[2], 0, 0xffff_ffff) is Err
                ||| read_integer(fields[3], 0, 0xffff_ffff) is Err
            }
        }),
{
}

} // verus!
