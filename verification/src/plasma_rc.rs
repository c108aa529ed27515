//! Reading current values out of the desktop's RC files: the section/key
//! lookups behind "what color scheme, desktop theme and wallpaper are
//! showing right now". The files themselves are read by the caller.

use vstd::prelude::*;

use crate::text::{
    matches_at, spec_contains, spec_lines, spec_trim, split_lines, str_contains, str_matches_at,
    trim_str,
};

verus! {

/// The value of the first `key`-prefixed line inside the section whose
/// trimmed header reads exactly `header`: a later header line closes the
/// section, and the value is the rest of the key line, trimmed.
pub open spec fn spec_find_in_section(
    lines: Seq<Seq<char>>,
    header: Seq<char>,
    key: Seq<char>,
    in_sec: bool,
) -> Option<Seq<char>>
    decreases lines.len(),
{
    if lines.len() == 0 {
        None
    } else {
        let l = lines[0];
        if spec_trim(l) == header {
            spec_find_in_section(lines.drop_first(), header, key, true)
        } else if l.len() > 0 && l[0] == '[' {
            spec_find_in_section(lines.drop_first(), header, key, false)
        } else if in_sec && matches_at(l, 0, key) {
            Some(spec_trim(l.skip(key.len() as int)))
        } else {
            spec_find_in_section(lines.drop_first(), header, key, in_sec)
        }
    }
}

/// Looks up the first `key`-prefixed line in the section headed `header`.
pub fn find_in_section(contents: &str, header: &str, key: &str) -> (r: Option<String>)
    ensures
        match r {
            Some(v) => spec_find_in_section(spec_lines(contents@), header@, key@, false)
                == Some(v@),
            None => spec_find_in_section(spec_lines(contents@), header@, key@, false) is None,
        },
{
    let lines = split_lines(contents);
    let mut in_sec = false;
    let n = lines.len();
    let mut i: usize = 0;
    proof {
        assert(lines.deep_view().skip(0) =~= lines.deep_view());
    }
    while i < n
        invariant
            n == lines@.len(),
            0 <= i <= n,
            lines.deep_view() == spec_lines(contents@),
            spec_find_in_section(lines.deep_view(), header@, key@, false)
                == spec_find_in_section(
                lines.deep_view().skip(i as int),
                header@,
                key@,
                in_sec,
            ),
        decreases n - i,
    {
        let ghost rest = lines.deep_view().skip(i as int);
        proof {
            assert(rest[0] == lines.deep_view()[i as int]);
            assert(rest.drop_first() =~= lines.deep_view().skip(i + 1));
        }
        let line = &lines[i];
        let tl = trim_str(line.as_str());
        let ln = line.as_str().unicode_len();
        let is_target_header = {
            let h: String = header.to_owned();
            tl == h
        };
        if is_target_header {
            in_sec = true;
        } else if ln > 0 && line.as_str().get_char(0) == '[' {
            in_sec = false;
        } else if in_sec && str_matches_at(line.as_str(), 0, key) {
            let kl = key.unicode_len();
            let tail = line.as_str().substring_char(kl, ln);
            let v = trim_str(tail);
            proof {
                assert(tail@ =~= rest[0].skip(key@.len() as int));
            }
            return Some(v);
        }
        i = i + 1;
    }
    proof {
        assert(lines.deep_view().skip(n as int) =~= Seq::<Seq<char>>::empty());
    }
    None
}

/// The wallpaper section of the desktop's applet configuration: a
/// `[Containments]` header that names the image wallpaper plugin's general
/// group.
pub open spec fn spec_is_wallpaper_header(l: Seq<char>) -> bool {
    matches_at(l, 0, "[Containments]"@) && spec_contains(
        l,
        "Wallpaper][org.kde.image][General]"@,
    )
}

/// The value of the first `Image=` line inside the wallpaper section.
pub open spec fn spec_find_wallpaper(lines: Seq<Seq<char>>, in_sec: bool) -> Option<Seq<char>>
    decreases lines.len(),
{
    if lines.len() == 0 {
        None
    } else {
        let l = lines[0];
        if spec_is_wallpaper_header(l) {
            spec_find_wallpaper(lines.drop_first(), true)
        } else if l.len() > 0 && l[0] == '[' {
            spec_find_wallpaper(lines.drop_first(), false)
        } else if in_sec && matches_at(l, 0, "Image="@) {
            Some(spec_trim(l.skip("Image="@.len() as int)))
        } else {
            spec_find_wallpaper(lines.drop_first(), in_sec)
        }
    }
}

/// Looks up the wallpaper image path in the applet configuration.
pub fn find_wallpaper_image(contents: &str) -> (r: Option<String>)
    ensures
        match r {
            Some(v) => spec_find_wallpaper(spec_lines(contents@), false) == Some(v@),
            None => spec_find_wallpaper(spec_lines(contents@), false) is None,
        },
{
    let lines = split_lines(contents);
    let mut in_sec = false;
    let n = lines.len();
    let mut i: usize = 0;
    proof {
        assert(lines.deep_view().skip(0) =~= lines.deep_view());
    }
    while i < n
        invariant
            n == lines@.len(),
            0 <= i <= n,
            lines.deep_view() == spec_lines(contents@),
            spec_find_wallpaper(lines.deep_view(), false) == spec_find_wallpaper(
                lines.deep_view().skip(i as int),
                in_sec,
            ),
        decreases n - i,
    {
        let ghost rest = lines.deep_view().skip(i as int);
        proof {
            assert(rest[0] == lines.deep_view()[i as int]);
            assert(rest.drop_first() =~= lines.deep_view().skip(i + 1));
        }
        let line = &lines[i];
        let ln = line.as_str().unicode_len();
        let is_header = str_matches_at(line.as_str(), 0, "[Containments]") && str_contains(
            line.as_str(),
            "Wallpaper][org.kde.image][General]",
        );
        if is_header {
            in_sec = true;
        } else if ln > 0 && line.as_str().get_char(0) == '[' {
            in_sec = false;
        } else if in_sec && str_matches_at(line.as_str(), 0, "Image=") {
            let kl = "Image=".unicode_len();
            let tail = line.as_str().substring_char(kl, ln);
            let v = trim_str(tail);
            proof {
                assert(tail@ =~= rest[0].skip("Image="@.len() as int));
            }
            return Some(v);
        }
        i = i + 1;
    }
    proof {
        assert(lines.deep_view().skip(n as int) =~= Seq::<Seq<char>>::empty());
    }
    None
}

/// `s` without a leading `file://` scheme, and unchanged when it has none.
pub fn strip_file_scheme(s: &str) -> (r: String)
    ensures
        matches_at(s@, 0, "file://"@) ==> r@ == s@.skip("file://"@.len() as int),
        !matches_at(s@, 0, "file://"@) ==> r@ == s@,
{
    if str_matches_at(s, 0, "file://") {
        let kl = "file://".unicode_len();
        let n = s.unicode_len();
        let tail = s.substring_char(kl, n);
        proof {
            assert(tail@ =~= s@.skip("file://"@.len() as int));
        }
        tail.to_owned()
    } else {
        s.to_owned()
    }
}

} // verus!
