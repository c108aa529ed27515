//! The terminal-profile update: rewriting the default profile in the
//! terminal RC file, and picking out the terminal services on the session
//! bus. Reading the file and talking to the bus stay with the caller; the
//! text transformations are proved here.

use vstd::prelude::*;

use crate::text::{
    matches_at, spec_contains, spec_lines, spec_trim, spec_unlines, split_lines, join_lines,
    str_contains, str_matches_at, trim_str,
};
use crate::theme::{theme_chars, Theme};

verus! {

/// The line the default-profile entry is replaced with.
pub open spec fn spec_profile_line(t: Theme) -> Seq<char> {
    "DefaultProfile="@ + theme_chars(t) + ".profile"@
}

/// Renders the replacement default-profile line.
pub fn profile_line(theme: &Theme) -> (r: String)
    ensures
        r@ == spec_profile_line(*theme),
{
    let mut out = "DefaultProfile=".to_owned();
    match theme {
        Theme::Light => out.append("light"),
        Theme::Dark => out.append("dark"),
    }
    out.append(".profile");
    out
}

/// A trimmed line that reads as a section header.
pub open spec fn spec_is_header(tl: Seq<char>) -> bool {
    tl.len() >= 1 && tl[0] == '[' && tl[tl.len() - 1] == ']'
}

/// The lines after the rewrite: section headers switch tracking of the
/// `[Desktop Entry]` section on and off, and inside that section every
/// `DefaultProfile=` line becomes the entry for `t`; everything else is
/// kept as it stands.
pub open spec fn spec_update_lines(lines: Seq<Seq<char>>, t: Theme, in_de: bool) -> Seq<Seq<char>>
    decreases lines.len(),
{
    if lines.len() == 0 {
        seq![]
    } else {
        let tl = spec_trim(lines[0]);
        let in2 = if spec_is_header(tl) {
            tl == "[Desktop Entry]"@
        } else {
            in_de
        };
        let out = if in2 && matches_at(tl, 0, "DefaultProfile="@) {
            spec_profile_line(t)
        } else {
            lines[0]
        };
        seq![out] + spec_update_lines(lines.drop_first(), t, in2)
    }
}

/// The whole RC file after the rewrite.
pub open spec fn spec_update_konsolerc(s: Seq<char>, t: Theme) -> Seq<char> {
    spec_unlines(spec_update_lines(spec_lines(s), t, false))
}

/// Rewrites the `DefaultProfile` entry of the `[Desktop Entry]` section to
/// the profile of `theme`, leaving every other line as it is. Every line of
/// the result ends in a newline.
pub fn update_default_profile(contents: &str, theme: &Theme) -> (r: String)
    ensures
        r@ == spec_update_konsolerc(contents@, *theme),
{
    let lines = split_lines(contents);
    let mut out: Vec<String> = Vec::new();
    let mut in_de = false;
    let n = lines.len();
    let mut i: usize = 0;
    proof {
        assert(out.deep_view() =~= Seq::<Seq<char>>::empty());
        assert(lines.deep_view().skip(0) =~= lines.deep_view());
        assert(out.deep_view() + spec_update_lines(lines.deep_view(), *theme, false)
            =~= spec_update_lines(lines.deep_view(), *theme, false));
    }
    while i < n
        invariant
            n == lines@.len(),
            0 <= i <= n,
            lines.deep_view() == spec_lines(contents@),
            spec_update_lines(lines.deep_view(), *theme, false) == out.deep_view()
                + spec_update_lines(lines.deep_view().skip(i as int), *theme, in_de),
        decreases n - i,
    {
        let ghost rest = lines.deep_view().skip(i as int);
        let ghost old_out = out.deep_view();
        proof {
            assert(rest[0] == lines.deep_view()[i as int]);
            assert(rest.drop_first() =~= lines.deep_view().skip(i + 1));
        }
        let tl = trim_str(lines[i].as_str());
        let tlen = tl.as_str().unicode_len();
        let is_header = tlen >= 1 && tl.as_str().get_char(0) == '[' && tl.as_str().get_char(
            tlen - 1,
        ) == ']';
        if is_header {
            let header: String = "[Desktop Entry]".to_owned();
            in_de = tl == header;
        }
        let replace = in_de && str_matches_at(tl.as_str(), 0, "DefaultProfile=");
        if replace {
            out.push(profile_line(theme));
        } else {
            out.push(lines[i].clone());
        }
        proof {
            assert(out.deep_view() =~= old_out.push(out.deep_view().last()));
            assert(out.deep_view() + spec_update_lines(
                lines.deep_view().skip(i + 1),
                *theme,
                in_de,
            ) =~= old_out + spec_update_lines(rest, *theme, in_de));
        }
        i = i + 1;
    }
    proof {
        assert(lines.deep_view().skip(n as int) =~= Seq::<Seq<char>>::empty());
        assert(out.deep_view() + Seq::<Seq<char>>::empty() =~= out.deep_view());
    }
    join_lines(&out)
}

/// A bus name that belongs to a terminal session service.
pub open spec fn spec_is_konsole_name(n: Seq<char>) -> bool {
    spec_contains(n, "org.kde.konsole"@)
}

/// The terminal service names among `names`.
pub open spec fn spec_konsole_names(names: Seq<Seq<char>>) -> Seq<Seq<char>> {
    names.filter(|n: Seq<char>| spec_is_konsole_name(n))
}

/// Filtering one more name keeps it exactly when it is a terminal service
/// name.
proof fn lemma_konsole_names_push(s: Seq<Seq<char>>, x: Seq<char>)
    ensures
        spec_konsole_names(s.push(x)) == if spec_is_konsole_name(x) {
            spec_konsole_names(s).push(x)
        } else {
            spec_konsole_names(s)
        },
{
    reveal_with_fuel(Seq::<Seq<char>>::filter, 2);
    assert(s.push(x).drop_last() =~= s);
    assert(s.push(x).last() == x);
}

/// Does this bus name belong to a terminal session service?
pub fn is_konsole_name(name: &str) -> (r: bool)
    ensures
        r == spec_is_konsole_name(name@),
{
    str_contains(name, "org.kde.konsole")
}

/// Keeps the bus names that belong to terminal session services, in order.
pub fn filter_konsole_names(names: &Vec<String>) -> (r: Vec<String>)
    ensures
        r.deep_view() == spec_konsole_names(names.deep_view()),
{
    let mut r: Vec<String> = Vec::new();
    let n = names.len();
    let mut i: usize = 0;
    proof {
        assert(names.deep_view().take(0) =~= Seq::<Seq<char>>::empty());
        assert(r.deep_view() =~= spec_konsole_names(names.deep_view().take(0)));
    }
    while i < n
        invariant
            n == names@.len(),
            0 <= i <= n,
            r.deep_view() == spec_konsole_names(names.deep_view().take(i as int)),
        decreases n - i,
    {
        let ghost prefix = names.deep_view().take(i as int);
        let ghost old_r = r.deep_view();
        let keep = is_konsole_name(names[i].as_str());
        if keep {
            r.push(names[i].clone());
        }
        proof {
            let next = names.deep_view().take(i + 1);
            assert(next =~= prefix.push(names.deep_view()[i as int]));
            lemma_konsole_names_push(prefix, names.deep_view()[i as int]);
            if keep {
                assert(r.deep_view() =~= old_r.push(names.deep_view()[i as int]));
            }
            assert(r.deep_view() =~= spec_konsole_names(next));
        }
        i = i + 1;
    }
    proof {
        assert(names.deep_view().take(n as int) =~= names.deep_view());
    }
    r
}

} // verus!
