//! The two-valued theme tag and the per-theme style record.

use vstd::prelude::*;

verus! {

/// The two user-visible modes a session can be in.
#[derive(Clone, Copy, Debug, PartialEq, Eq, Structural)]
pub enum Theme {
    Light,
    Dark,
}

/// Canonical lowercase name of a theme.
pub open spec fn theme_chars(t: Theme) -> Seq<char> {
    match t {
        Theme::Light => "light"@,
        Theme::Dark => "dark"@,
    }
}

/// Code point of `c`, with ASCII upper-case letters folded to lower case.
pub open spec fn lower_code(c: char) -> int {
    if 65 <= c as int <= 90 {
        c as int + 32
    } else {
        c as int
    }
}

/// `a` and `b` are the same character up to ASCII case.
pub open spec fn chars_eq_ci(a: char, b: char) -> bool {
    lower_code(a) == lower_code(b)
}

/// `s` and `t` are equal strings up to ASCII case.
pub open spec fn seq_eq_ci(s: Seq<char>, t: Seq<char>) -> bool {
    s.len() == t.len() && forall|i: int| 0 <= i < s.len() ==> chars_eq_ci(s[i], t[i])
}

/// What parsing a theme name yields: a case-insensitive match of the two
/// canonical names, everything else rejected.
pub open spec fn spec_parse_theme(s: Seq<char>) -> Option<Theme> {
    if seq_eq_ci(s, "light"@) {
        Some(Theme::Light)
    } else if seq_eq_ci(s, "dark"@) {
        Some(Theme::Dark)
    } else {
        None
    }
}

impl Theme {
    /// The other theme.
    pub open spec fn spec_opposite(self) -> Theme {
        match self {
            Theme::Light => Theme::Dark,
            Theme::Dark => Theme::Light,
        }
    }

    /// Returns the other theme.
    pub fn opposite(&self) -> (r: Theme)
        ensures
            r == self.spec_opposite(),
    {
        match self {
            Theme::Light => Theme::Dark,
            Theme::Dark => Theme::Light,
        }
    }

    /// Canonical lowercase name ("light" or "dark").
    pub fn to_string(&self) -> (r: String)
        ensures
            r@ == theme_chars(*self),
    {
        match self {
            Theme::Light => "light".to_owned(),
            Theme::Dark => "dark".to_owned(),
        }
    }

    /// Parses a theme name, ignoring ASCII case; any other input is rejected.
    pub fn from_str(s: &str) -> (r: Result<Theme, ()>)
        ensures
            r == spec_parse_theme_result(s@),
    {
        if str_eq_ci(s, "light") {
            Ok(Theme::Light)
        } else if str_eq_ci(s, "dark") {
            Ok(Theme::Dark)
        } else {
            proof {
                if seq_eq_ci(s@, "light"@) || seq_eq_ci(s@, "dark"@) {
                    assert(false);
                }
            }
            Err(())
        }
    }
}

/// `spec_parse_theme` reshaped as the `Result` that `Theme::from_str` returns.
pub open spec fn spec_parse_theme_result(s: Seq<char>) -> Result<Theme, ()> {
    match spec_parse_theme(s) {
        Some(t) => Ok(t),
        None => Err(()),
    }
}

/// `a` and `b` are the same character up to ASCII case.
pub fn char_eq_ci(a: char, b: char) -> (r: bool)
    ensures
        r == chars_eq_ci(a, b),
{
    let x: u32 = a as u32;
    let y: u32 = b as u32;
    let lx: u32 = if 65 <= x && x <= 90 {
        x + 32
    } else {
        x
    };
    let ly: u32 = if 65 <= y && y <= 90 {
        y + 32
    } else {
        y
    };
    lx == ly
}

/// `a` and `b` are equal strings up to ASCII case.
pub fn str_eq_ci(a: &str, b: &str) -> (r: bool)
    ensures
        r == seq_eq_ci(a@, b@),
{
    let la = a.unicode_len();
    let lb = b.unicode_len();
    if la != lb {
        return false;
    }
    let mut i: usize = 0;
    while i < la
        invariant
            la == a@.len(),
            la == b@.len(),
            0 <= i <= la,
            forall|j: int| 0 <= j < i ==> chars_eq_ci(a@[j], b@[j]),
        decreases la - i,
    {
        if !char_eq_ci(a.get_char(i), b.get_char(i)) {
            return false;
        }
        i = i + 1;
    }
    true
}

/// Parsing the canonical name of a theme gives that theme back.
pub proof fn lemma_theme_parse_roundtrip(t: Theme)
    ensures
        spec_parse_theme(theme_chars(t)) == Some(t),
{
    reveal_strlit("light");
    reveal_strlit("dark");
    assert(seq_eq_ci(theme_chars(t), theme_chars(t)));
}

/// Parsing is insensitive to ASCII case: two inputs that agree up to case
/// parse to the same result.
pub proof fn lemma_parse_case_insensitive(s1: Seq<char>, s2: Seq<char>)
    requires
        seq_eq_ci(s1, s2),
    ensures
        spec_parse_theme(s1) == spec_parse_theme(s2),
{
    assert forall|t: Seq<char>| seq_eq_ci(s1, t) implies seq_eq_ci(s2, t) by {
        assert forall|i: int| 0 <= i < s2.len() implies chars_eq_ci(s2[i], t[i]) by {
            assert(chars_eq_ci(s1[i], s2[i]));
            assert(chars_eq_ci(s1[i], t[i]));
        }
    }
    assert forall|t: Seq<char>| seq_eq_ci(s2, t) implies seq_eq_ci(s1, t) by {
        assert forall|i: int| 0 <= i < s1.len() implies chars_eq_ci(s1[i], t[i]) by {
            assert(chars_eq_ci(s1[i], s2[i]));
            assert(chars_eq_ci(s2[i], t[i]));
        }
    }
}

/// Bundle of the visual settings that belong to one theme.
#[derive(Clone, Debug, PartialEq)]
pub struct Style {
    pub wallpaper: String,
    pub color_scheme: String,
    pub desktop_theme: String,
    pub terminal_profile: String,
}

} // verus!
