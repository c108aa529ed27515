//! The persisted theme state: the single-key file that remembers which theme
//! was last applied, its renderer and its parser.

use vstd::prelude::*;

use crate::text::{find_char, find_char_from, matches_at, skip_ws, skip_ws_from, str_matches_at};
use crate::theme::{spec_parse_theme, theme_chars, lemma_theme_parse_roundtrip, Theme};

verus! {

/// The persisted fact: which theme was applied last.
#[derive(Clone, Copy, Debug, PartialEq, Eq, Structural)]
pub struct ThemeState {
    pub current_theme: Theme,
}

/// Why a state operation failed.
#[derive(Clone, Copy, Debug, PartialEq, Eq, Structural)]
pub enum StateError {
    /// No per-user configuration directory could be determined.
    NoConfigDir,
    /// The state file exists but does not hold a well-formed theme entry.
    Corrupt,
}

/// Knows where the state file lives.
#[derive(Clone, Debug)]
pub struct StateManager {
    pub state_path: String,
}

impl StateManager {
    /// Points at the state file under the per-user configuration directory.
    pub fn new() -> (r: Result<StateManager, StateError>)
        ensures
            r matches Ok(m) ==> exists|d: Seq<char>|
                m.state_path@ == d + "/kswitch/state.toml"@,
            r matches Err(e) ==> e == StateError::NoConfigDir,
    {
        match crate::config::config_dir() {
            None => Err(StateError::NoConfigDir),
            Some(dir) => {
                let mut p = dir;
                let ghost d = p@;
                p.append("/kswitch/state.toml");
                proof {
                    assert(p@ == d + "/kswitch/state.toml"@);
                }
                Ok(StateManager { state_path: p })
            },
        }
    }
}

/// The exact contents the state file is given for `t`.
pub open spec fn spec_state_file(t: Theme) -> Seq<char> {
    "current_theme = \""@ + theme_chars(t) + "\"\n"@
}

/// What parsing a state file yields: leading whitespace, the key
/// `current_theme`, `=`, a double-quoted theme name (matched without regard
/// to ASCII case), trailing whitespace, nothing else.
pub open spec fn spec_parse_state(s: Seq<char>) -> Option<Theme> {
    let key = "current_theme"@;
    let i0 = skip_ws(s, 0);
    if matches_at(s, i0, key) {
        let i1 = skip_ws(s, i0 + key.len());
        if i1 < s.len() && s[i1] == '=' {
            let i2 = skip_ws(s, i1 + 1);
            if i2 < s.len() && s[i2] == '"' {
                let j = find_char(s, '"', i2 + 1);
                if j < s.len() {
                    let t = spec_parse_theme(s.subrange(i2 + 1, j));
                    if t is Some && skip_ws(s, j + 1) == s.len() {
                        t
                    } else {
                        None
                    }
                } else {
                    None
                }
            } else {
                None
            }
        } else {
            None
        }
    } else {
        None
    }
}

/// Renders the state file contents for `theme`.
pub fn render_state(theme: &Theme) -> (r: String)
    ensures
        r@ == spec_state_file(*theme),
{
    let mut out = String::new();
    out.append("current_theme = \"");
    match theme {
        Theme::Light => out.append("light"),
        Theme::Dark => out.append("dark"),
    }
    out.append("\"\n");
    out
}

/// Parses state file contents; anything but a single well-formed
/// `current_theme` entry is rejected as corrupt.
pub fn parse_state(s: &str) -> (r: Result<ThemeState, StateError>)
    ensures
        match r {
            Ok(st) => spec_parse_state(s@) == Some(st.current_theme),
            Err(e) => spec_parse_state(s@) is None && e == StateError::Corrupt,
        },
{
    let n = s.unicode_len();
    let key = "current_theme";
    let key_len = key.unicode_len();
    let i0 = skip_ws_from(s, 0);
    if !str_matches_at(s, i0, key) {
        return Err(StateError::Corrupt);
    }
    let i1 = skip_ws_from(s, i0 + key_len);
    if !(i1 < n && s.get_char(i1) == '=') {
        return Err(StateError::Corrupt);
    }
    let i2 = skip_ws_from(s, i1 + 1);
    if !(i2 < n && s.get_char(i2) == '"') {
        return Err(StateError::Corrupt);
    }
    let j = find_char_from(s, '"', i2 + 1);
    if !(j < n) {
        return Err(StateError::Corrupt);
    }
    let name = s.substring_char(i2 + 1, j);
    let parsed = Theme::from_str(name);
    match parsed {
        Err(()) => Err(StateError::Corrupt),
        Ok(t) => {
            if skip_ws_from(s, j + 1) == n {
                Ok(ThemeState { current_theme: t })
            } else {
                Err(StateError::Corrupt)
            }
        },
    }
}

/// Turns what was read from the state file into the persisted state: a
/// missing file (`None`) is not an error and stands for Light; unreadable
/// contents are reported as corrupt.
pub fn load_from(contents: Option<&str>) -> (r: Result<ThemeState, StateError>)
    ensures
        contents is None ==> r == Ok::<ThemeState, StateError>(
            ThemeState { current_theme: Theme::Light },
        ),
        contents matches Some(s) ==> match r {
            Ok(st) => spec_parse_state(s@) == Some(st.current_theme),
            Err(e) => spec_parse_state(s@) is None && e == StateError::Corrupt,
        },
{
    match contents {
        None => Ok(ThemeState { current_theme: Theme::Light }),
        Some(s) => parse_state(s),
    }
}

/// Parsing what `render_state` wrote gives the same theme back: the state
/// file round-trips.
pub proof fn lemma_state_roundtrip(t: Theme)
    ensures
        spec_parse_state(spec_state_file(t)) == Some(t),
{
    reveal_strlit("current_theme = \"");
    reveal_strlit("current_theme");
    reveal_strlit("\"\n");
    reveal_strlit("light");
    reveal_strlit("dark");
    let s = spec_state_file(t);
    let name = theme_chars(t);
    let head = "current_theme = \""@;
    let tail = "\"\n"@;
    let nl = name.len() as int;
    assert(head.len() == 17);
    assert(tail.len() == 2);
    assert(s.len() == 19 + nl);
    reveal_with_fuel(skip_ws, 3);
    reveal_with_fuel(find_char, 7);
    assert(s[0] == 'c');
    assert(skip_ws(s, 0) == 0);
    assert(s.subrange(0, 13) =~= "current_theme"@);
    assert(matches_at(s, 0, "current_theme"@));
    assert(s[13] == ' ' && s[14] == '=');
    assert(skip_ws(s, 13) == 14);
    assert(s[15] == ' ' && s[16] == '"');
    assert(skip_ws(s, 15) == 16);
    assert(forall|k: int| 0 <= k < nl ==> s[17 + k] == name[k]);
    match t {
        Theme::Light => {
            assert(name =~= "light"@);
            assert(s[17] == 'l' && s[18] == 'i' && s[19] == 'g' && s[20] == 'h' && s[21] == 't');
            assert(s[22] == '"' && s[23] == '\n');
            assert(find_char(s, '"', 17) == 22);
            assert(s.subrange(17, 22) =~= name);
            assert(skip_ws(s, 23) == s.len());
        },
        Theme::Dark => {
            assert(name =~= "dark"@);
            assert(s[17] == 'd' && s[18] == 'a' && s[19] == 'r' && s[20] == 'k');
            assert(s[21] == '"' && s[22] == '\n');
            assert(find_char(s, '"', 17) == 21);
            assert(s.subrange(17, 21) =~= name);
            assert(skip_ws(s, 22) == s.len());
        },
    }
    lemma_theme_parse_roundtrip(t);
}

} // verus!
