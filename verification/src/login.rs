//! What the login screen and the server agree on: the request to sign in, its
//! answer, and the sessions that a user may choose from.

use vstd::prelude::*;

use crate::text::{opt_text, same_text, texts, trim, trimmed};

verus! {

broadcast use crate::text::lemma_texts_push;

/// What the login screen asks the server.
#[derive(Clone, Debug, PartialEq, Eq)]
pub enum LoginRequest {
    /// `session` is the name of a preset, or [`USER_CONFIGURED`].
    Authenticate { username: String, password: String, session: String },
}

/// What the server answers.
#[derive(Debug, PartialEq, Eq)]
pub enum LoginResponse {
    Authenticate(Result<(), String>),
}

impl Clone for LoginResponse {
    fn clone(&self) -> (r: Self)
        ensures
            r == *self,
    {
        match self {
            LoginResponse::Authenticate(Ok(u)) => LoginResponse::Authenticate(Ok(*u)),
            LoginResponse::Authenticate(Err(e)) => LoginResponse::Authenticate(Err(e.clone())),
        }
    }
}

/// The session that a user has configured for themselves.
pub const USER_CONFIGURED: &'static str = "user-configured";

/// A session that the operator offers.
#[derive(Clone, Debug, PartialEq, Eq)]
pub struct SessionPreset {
    pub name: String,
    /// `kwin` or `gst-wayland-display`.
    pub backend: String,
    pub payload: Vec<String>,
    pub desktop_name: Option<String>,
    pub glx_vendor: Option<String>,
}

/// A [`SessionPreset`] as plain text.
#[verifier::ext_equal]
pub struct PresetView {
    pub name: Seq<char>,
    pub backend: Seq<char>,
    pub payload: Seq<Seq<char>>,
    pub desktop_name: Option<Seq<char>>,
    pub glx_vendor: Option<Seq<char>>,
}

impl View for SessionPreset {
    type V = PresetView;

    open spec fn view(&self) -> PresetView {
        PresetView {
            name: self.name@,
            backend: self.backend@,
            payload: texts(self.payload@),
            desktop_name: opt_text(self.desktop_name),
            glx_vendor: opt_text(self.glx_vendor),
        }
    }
}

/// What each preset says.
pub open spec fn presets_view(presets: Seq<SessionPreset>) -> Seq<PresetView> {
    presets.map_values(|p: SessionPreset| p@)
}

/// Where the operator's presets stand.
pub const DEFAULT_SESSIONS_CONFIG_PATH: &'static str = "/etc/redfog/sessions.toml";

/// The presets on offer where the operator has written none.
pub open spec fn built_in_presets() -> Seq<PresetView> {
    seq![
        PresetView {
            name: "KDE Plasma"@,
            backend: "kwin"@,
            payload: seq!["plasmashell"@, "--no-respawn"@],
            desktop_name: None,
            glx_vendor: None,
        },
        PresetView {
            name: "Sway"@,
            backend: "gst-wayland-display"@,
            payload: seq!["sway"@],
            desktop_name: Some("sway"@),
            glx_vendor: None,
        },
    ]
}

/// The presets on offer where the operator has written none.
pub fn default_presets() -> (out: Vec<SessionPreset>)
    ensures
        presets_view(out@) == built_in_presets(),
{
    let mut plasma: Vec<String> = Vec::new();
    plasma.push("plasmashell".to_string());
    plasma.push("--no-respawn".to_string());
    let mut sway: Vec<String> = Vec::new();
    sway.push("sway".to_string());
    let mut out: Vec<SessionPreset> = Vec::new();
    out.push(
        SessionPreset {
            name: "KDE Plasma".to_string(),
            backend: "kwin".to_string(),
            payload: plasma,
            desktop_name: None,
            glx_vendor: None,
        },
    );
    out.push(
        SessionPreset {
            name: "Sway".to_string(),
            backend: "gst-wayland-display".to_string(),
            payload: sway,
            desktop_name: Some("sway".to_string()),
            glx_vendor: None,
        },
    );
    assert(texts(plasma@) =~= seq!["plasmashell"@, "--no-respawn"@]);
    assert(texts(sway@) =~= seq!["sway"@]);
    assert(out@[0]@ =~= built_in_presets()[0]);
    assert(out@[1]@ =~= built_in_presets()[1]);
    assert(presets_view(out@) =~= built_in_presets());
    out
}

/// What reading the operator's file came to.
pub enum SessionsFile {
    Missing,
    /// It could not be read, for this reason.
    Unreadable(String),
    /// It is not the TOML it should be, for this reason.
    Malformed(String),
    /// The presets it holds.
    Parsed(Vec<SessionPreset>),
}

/// The presets on offer. Only a missing file is passed over: one that is there
/// and cannot be used is an error.
pub fn load_presets(path: &str, file: SessionsFile) -> (r: Result<Vec<SessionPreset>, String>)
    ensures
        match file {
            SessionsFile::Missing => r matches Ok(p) && presets_view(p@) == built_in_presets(),
            SessionsFile::Unreadable(e) => r matches Err(m) && m@ == "failed to read "@ + path@
                + ": "@ + e@,
            SessionsFile::Malformed(e) => r matches Err(m) && m@ == "failed to parse "@ + path@
                + ": "@ + e@,
            SessionsFile::Parsed(p) => if p@.len() == 0 {
                r matches Err(m) && m@ == path@ + " defines no [[session]] entries"@
            } else {
                r == Ok::<Vec<SessionPreset>, String>(p)
            },
        },
{
    match file {
        SessionsFile::Missing => Ok(default_presets()),
        SessionsFile::Unreadable(e) => {
            let mut m = "failed to read ".to_string();
            m.append(path);
            m.append(": ");
            m.append(e.as_str());
            Err(m)
        },
        SessionsFile::Malformed(e) => {
            let mut m = "failed to parse ".to_string();
            m.append(path);
            m.append(": ");
            m.append(e.as_str());
            Err(m)
        },
        SessionsFile::Parsed(p) => {
            if p.len() == 0 {
                let mut m = path.to_string();
                m.append(" defines no [[session]] entries");
                Err(m)
            } else {
                Ok(p)
            }
        },
    }
}

/// The choices that the login screen shows: the presets, and the user's own
/// session last.
pub fn session_names(presets: &Vec<SessionPreset>) -> (names: Vec<String>)
    ensures
        texts(names@) == presets_view(presets@).map_values(|p: PresetView| p.name).push(
            "Custom"@,
        ),
{
    let mut names: Vec<String> = Vec::new();
    let mut i: usize = 0;
    while i < presets.len()
        invariant
            i <= presets@.len(),
            names@.len() == i,
            forall|j: int| 0 <= j < i ==> (#[trigger] names@[j])@ == presets@[j].name@,
        decreases presets@.len() - i,
    {
        names.push(presets[i].name.clone());
        i += 1;
    }
    names.push("Custom".to_string());
    assert(texts(names@) =~= presets_view(presets@).map_values(|p: PresetView| p.name).push(
        "Custom"@,
    ));
    names
}

/// What became of asking the server.
pub enum ServerReply {
    /// The screen runs without a server.
    NoServer,
    /// The server was not reached, for this reason.
    Unreachable(String),
    /// No answer could be read, for this reason.
    Unreadable(String),
    /// The answer made no sense, for this reason.
    Invalid(String),
    Answer(LoginResponse),
}

/// Whether the user may sign in. Without a server any name will do.
pub fn authenticate(username: &str, reply: ServerReply) -> (r: Result<(), String>)
    ensures
        match reply {
            ServerReply::NoServer => match r {
                Ok(_) => trimmed(username@).len() > 0,
                Err(m) => trimmed(username@).len() == 0 && m@ == "Username cannot be empty"@,
            },
            ServerReply::Unreachable(e) => r matches Err(m) && m@
                == "failed to reach session server: "@ + e@,
            ServerReply::Unreadable(e) => r matches Err(m) && m@
                == "failed to read response from session server: "@ + e@,
            ServerReply::Invalid(e) => r matches Err(m) && m@
                == "invalid response from session server: "@ + e@,
            ServerReply::Answer(LoginResponse::Authenticate(result)) => r == result,
        },
{
    match reply {
        ServerReply::NoServer => {
            let name = trim(username);
            proof {
                reveal_strlit("");
                if name@.len() == 0 {
                    assert(name@ =~= ""@);
                }
            }
            if same_text(name.as_str(), "") {
                Err("Username cannot be empty".to_string())
            } else {
                Ok(())
            }
        },
        ServerReply::Unreachable(e) => {
            let mut m = "failed to reach session server: ".to_string();
            m.append(e.as_str());
            Err(m)
        },
        ServerReply::Unreadable(e) => {
            let mut m = "failed to read response from session server: ".to_string();
            m.append(e.as_str());
            Err(m)
        },
        ServerReply::Invalid(e) => {
            let mut m = "invalid response from session server: ".to_string();
            m.append(e.as_str());
            Err(m)
        },
        ServerReply::Answer(LoginResponse::Authenticate(result)) => result,
    }
}

} // verus!
