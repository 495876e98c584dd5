//! The agent's settings and their defaults.
use vstd::prelude::*;
use crate::text::{chars_of, string_of};

verus! {

/// The agent's settings, as stored in its settings file.
#[derive(Debug, Clone)]
pub struct AgentConfig {
    pub server_url: String,
    pub api_key: String,
    pub printer_name: String,
    pub poll_interval_seconds: u64,
    pub auto_start: bool,
    pub agent_id: String,
}

/// A lower-case hexadecimal digit.
pub open spec fn is_lower_hex(c: char) -> bool {
    ('0' as u32 <= c as u32 <= '9' as u32) || ('a' as u32 <= c as u32 <= 'f' as u32)
}

/// The hyphenated lower-case text of a version-4 UUID:
/// `xxxxxxxx-xxxx-4xxx-yxxx-xxxxxxxxxxxx`.
pub open spec fn is_v4_uuid_text(s: Seq<char>) -> bool {
    &&& s.len() == 36
    &&& forall|i: int|
        0 <= i < 36 ==> if i == 8 || i == 13 || i == 18 || i == 23 {
            #[trigger] s[i] == '-'
        } else {
            is_lower_hex(s[i])
        }
    &&& s[14] == '4'
}

/// The text of a fresh random UUID (`uuid::Uuid::new_v4`, shown by its
/// `Display`). Claimed of it: the text is the 36-character hyphenated
/// lower-case form of a version-4 UUID. Which UUID comes out is chance.
#[verifier::external_body]
fn random_uuid_text() -> (s: String)
    ensures
        is_v4_uuid_text(s@),
{
    uuid::Uuid::new_v4().to_string()
}

/// A fresh agent id: the first eight characters of a random UUID, so eight
/// lower-case hexadecimal digits.
fn new_agent_id() -> (id: String)
    ensures
        id@.len() == 8,
        forall|i: int| 0 <= i < 8 ==> is_lower_hex(#[trigger] id@[i]),
{
    let u = random_uuid_text();
    let v = chars_of(u.as_str());
    let id = string_of(&v, 0, 8);
    assert forall|i: int| 0 <= i < 8 implies is_lower_hex(#[trigger] id@[i]) by {
        assert(id@[i] == u@[i]);
    }
    id
}

impl Default for AgentConfig {
    /// The settings of an agent that has not been set up: the local server,
    /// no API key, no printer, a five-second poll interval, start at login,
    /// and a fresh random agent id.
    fn default() -> (cfg: Self)
        ensures
            cfg.server_url@ == "http://localhost:5050"@,
            cfg.api_key@ == Seq::<char>::empty(),
            cfg.printer_name@ == Seq::<char>::empty(),
            cfg.poll_interval_seconds == 5,
            cfg.auto_start,
            cfg.agent_id@.len() == 8,
            forall|i: int| 0 <= i < 8 ==> is_lower_hex(#[trigger] cfg.agent_id@[i]),
    {
        AgentConfig {
            server_url: "http://localhost:5050".to_string(),
            api_key: String::new(),
            printer_name: String::new(),
            poll_interval_seconds: 5,
            auto_start: true,
            agent_id: new_agent_id(),
        }
    }
}

/// A file name that `Path::join` adjoins to a base: not empty and free of
/// path separators and drive colons.
pub open spec fn is_plain_file_name(s: Seq<char>) -> bool {
    &&& s.len() > 0
    &&& forall|i: int| 0 <= i < s.len() ==> #[trigger] s[i] != '/' && s[i] != '\\' && s[i] != ':'
}

/// A path separator on some platform: `/` everywhere, `\` on Windows.
pub open spec fn is_separator(c: char) -> bool {
    c == '/' || c == '\\'
}

/// A path that may be a Windows verbatim path (`\\?\...`), which
/// `Path::join` normalises: two separators and a question mark.
pub open spec fn may_be_verbatim(s: Seq<char>) -> bool {
    s.len() >= 3 && is_separator(s[0]) && is_separator(s[1]) && s[2] == '?'
}

/// `joined` is `base` joined with the plain file name `child` as `Path::join`
/// joins them on any platform, for a base that is no verbatim path: `child`
/// follows `base`, with at most one separator between.
/// A separator stands between them when `base` is not empty and ends with
/// none of `/`, `\` and `:`; none stands there when `base` is empty or ends
/// with `/`. (Whether `\` separates, and whether a base ending in `:` is a
/// drive, the platform decides.)
pub open spec fn joined_with(base: Seq<char>, child: Seq<char>, joined: Seq<char>) -> bool {
    !may_be_verbatim(base) ==> {
        &&& joined == base + child || joined == base + seq!['/'] + child || joined == base
            + seq!['\\'] + child
        &&& base.len() > 0 && !is_separator(base.last()) && base.last() != ':' ==> joined == base
            + seq!['/'] + child || joined == base + seq!['\\'] + child
        &&& base.len() == 0 || base.last() == '/' ==> joined == base + child
    }
}

/// `base` joined with the plain file name `child` (`Path::join`, shown as a
/// string). Claimed of it: for a base that is no verbatim path, the result is
/// as `joined_with` says (`PathBuf::push` appends the platform's separator
/// when the base's last character is not a separator, except after a bare
/// drive such as `C:`, then appends `child`).
/// Of a base that may be verbatim nothing is claimed: on Windows a verbatim
/// base is normalised (`.` and `..` removed) when joined.
#[verifier::external_body]
fn path_join(base: &str, child: &str) -> (joined: String)
    requires
        is_plain_file_name(child@),
    ensures
        joined_with(base@, child@, joined@),
{
    std::path::Path::new(base).join(child).to_string_lossy().into_owned()
}

/// The name of the settings file.
pub open spec fn settings_file_name() -> Seq<char> {
    "settings.json"@
}

/// Where the settings file lives: `settings.json` inside the configuration
/// directory, or inside the working directory `.` when there is none.
pub fn config_path(config_dir: Option<String>) -> (path: String)
    ensures
        config_dir is None ==> path@ == "./settings.json"@ || path@ == ".\\settings.json"@,
        config_dir matches Some(d) ==> joined_with(d@, settings_file_name(), path@),
{
    let base = match config_dir {
        Some(d) => d,
        None => ".".to_string(),
    };
    let name = "settings.json";
    proof {
        reveal_strlit("settings.json");
        reveal_strlit(".");
        reveal_strlit("./settings.json");
        reveal_strlit(".\\settings.json");
    }
    let path = path_join(base.as_str(), name);
    proof {
        if config_dir is None {
            assert(base@ + seq!['/'] + name@ =~= "./settings.json"@);
            assert(base@ + seq!['\\'] + name@ =~= ".\\settings.json"@);
        }
    }
    path
}

/// The operating system families whose configuration directories differ.
#[derive(Debug, Clone, Copy, PartialEq, Eq, Structural)]
pub enum ConfigOs {
    /// macOS: `~/Library/Application Support`.
    MacOs,
    /// Windows: `%APPDATA%`.
    Windows,
    /// Linux and the other Unix systems: `~/.config`.
    Other,
}

/// The name of the agent's own configuration directory.
pub open spec fn app_dir_name() -> Seq<char> {
    "ampario-print-agent"@
}

/// The agent's configuration directory for the home directory `home` and the
/// Windows application-data directory `appdata` (the values of `HOME` and
/// `APPDATA`): `~/Library/Application Support/ampario-print-agent` on macOS,
/// `%APPDATA%/ampario-print-agent` on Windows and
/// `~/.config/ampario-print-agent` elsewhere; none where the variable it
/// needs is not set.
pub fn config_dir_for(os: ConfigOs, home: Option<String>, appdata: Option<String>) -> (dir:
    Option<String>)
    ensures
        match os {
            ConfigOs::MacOs => match home {
                None => dir is None,
                Some(h) => dir matches Some(d) && exists|a: Seq<char>, b: Seq<char>|
                    #![trigger joined_with(h@, "Library"@, a), joined_with(a, "Application Support"@, b)]
                    joined_with(h@, "Library"@, a) && joined_with(a, "Application Support"@, b)
                        && joined_with(b, app_dir_name(), d@),
            },
            ConfigOs::Windows => match appdata {
                None => dir is None,
                Some(p) => dir matches Some(d) && joined_with(p@, app_dir_name(), d@),
            },
            ConfigOs::Other => match home {
                None => dir is None,
                Some(h) => dir matches Some(d) && exists|a: Seq<char>|
                    #![trigger joined_with(h@, ".config"@, a)]
                    joined_with(h@, ".config"@, a) && joined_with(a, app_dir_name(), d@),
            },
        },
{
    proof {
        reveal_strlit("Library");
        reveal_strlit("Application Support");
        reveal_strlit(".config");
        reveal_strlit("ampario-print-agent");
    }
    match os {
        ConfigOs::MacOs => match home {
            None => None,
            Some(h) => {
                let a = path_join(h.as_str(), "Library");
                let b = path_join(a.as_str(), "Application Support");
                let d = path_join(b.as_str(), "ampario-print-agent");
                assert(joined_with(h@, "Library"@, a@) && joined_with(a@, "Application Support"@, b@));
                Some(d)
            },
        },
        ConfigOs::Windows => match appdata {
            None => None,
            Some(p) => Some(path_join(p.as_str(), "ampario-print-agent")),
        },
        ConfigOs::Other => match home {
            None => None,
            Some(h) => {
                let a = path_join(h.as_str(), ".config");
                let d = path_join(a.as_str(), "ampario-print-agent");
                assert(joined_with(h@, ".config"@, a@));
                Some(d)
            },
        },
    }
}

} // verus!
