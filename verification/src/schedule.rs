//! The schedule: a wrap-around sequence of windows mapping a wall-clock time
//! of day to the theme that should be showing at that time.

use vstd::prelude::*;

use crate::theme::Theme;

verus! {

/// A wall-clock time of day (no date).
#[derive(Clone, Copy, Debug, PartialEq, Eq, Structural)]
pub struct Time {
    pub hour: u8,
    pub minute: u8,
    pub second: u8,
}

impl Time {
    /// The fields stay within one day.
    pub open spec fn wf(self) -> bool {
        self.hour < 24 && self.minute < 60 && self.second < 60
    }

    /// Seconds since midnight.
    pub open spec fn spec_secs(self) -> int {
        self.hour * 3600 + self.minute * 60 + self.second
    }

    /// Builds a time of day; out-of-range fields are rejected.
    pub fn from_hms_opt(hour: u32, minute: u32, second: u32) -> (r: Option<Time>)
        ensures
            r is Some <==> (hour < 24 && minute < 60 && second < 60),
            r is Some ==> r->0 == (Time {
                hour: hour as u8,
                minute: minute as u8,
                second: second as u8,
            }) && r->0.wf(),
    {
        if hour < 24 && minute < 60 && second < 60 {
            Some(Time { hour: hour as u8, minute: minute as u8, second: second as u8 })
        } else {
            None
        }
    }

    /// Seconds since midnight.
    pub fn as_secs(&self) -> (r: u32)
        ensures
            r == self.spec_secs(),
    {
        self.hour as u32 * 3600 + self.minute as u32 * 60 + self.second as u32
    }
}

/// An ASCII decimal digit.
pub open spec fn is_digit(c: char) -> bool {
    48 <= c as int <= 57
}

/// The value of an ASCII decimal digit.
pub open spec fn digit_val(c: char) -> int {
    c as int - 48
}

/// The ASCII digit for a value below ten.
pub open spec fn digit_char(d: int) -> char {
    "0123456789"@[d]
}

/// What parsing a clock string yields: exactly `HH:MM:SS` with two digits
/// in each field and the fields within one day.
pub open spec fn spec_parse_time(s: Seq<char>) -> Option<Time> {
    if s.len() == 8 && s[2] == ':' && s[5] == ':' && is_digit(s[0]) && is_digit(s[1]) && is_digit(
        s[3],
    ) && is_digit(s[4]) && is_digit(s[6]) && is_digit(s[7]) {
        let h = 10 * digit_val(s[0]) + digit_val(s[1]);
        let m = 10 * digit_val(s[3]) + digit_val(s[4]);
        let sec = 10 * digit_val(s[6]) + digit_val(s[7]);
        if h < 24 && m < 60 && sec < 60 {
            Some(Time { hour: h as u8, minute: m as u8, second: sec as u8 })
        } else {
            None
        }
    } else {
        None
    }
}

/// The clock string `HH:MM:SS` for a well-formed time.
pub open spec fn spec_render_time(t: Time) -> Seq<char> {
    seq![
        digit_char(t.hour as int / 10),
        digit_char(t.hour as int % 10),
        ':',
        digit_char(t.minute as int / 10),
        digit_char(t.minute as int % 10),
        ':',
        digit_char(t.second as int / 10),
        digit_char(t.second as int % 10),
    ]
}

/// The value of one digit character.
fn digit_of(c: char) -> (r: Option<u32>)
    ensures
        r is Some <==> is_digit(c),
        r is Some ==> r->0 == digit_val(c),
{
    let n = c as u32;
    if 48 <= n && n <= 57 {
        Some(n - 48)
    } else {
        None
    }
}

/// Appends the two-digit decimal form of `v`.
fn append_two_digits(out: &mut String, v: u8)
    requires
        v < 100,
    ensures
        final(out)@ == old(out)@ + seq![digit_char(v as int / 10), digit_char(v as int % 10)],
{
    let digits = "0123456789";
    proof {
        reveal_strlit("0123456789");
    }
    let tens = (v / 10) as usize;
    let ones = (v % 10) as usize;
    out.append(digits.substring_char(tens, tens + 1));
    out.append(digits.substring_char(ones, ones + 1));
    proof {
        assert(digits@.subrange(tens as int, tens as int + 1) =~= seq![digit_char(v as int / 10)]);
        assert(digits@.subrange(ones as int, ones as int + 1) =~= seq![digit_char(v as int % 10)]);
        assert(final(out)@ =~= old(out)@ + seq![
            digit_char(v as int / 10),
            digit_char(v as int % 10),
        ]);
    }
}

/// Every digit character carries its value.
proof fn lemma_digit_chars()
    ensures
        forall|d: int|
            0 <= d < 10 ==> is_digit(#[trigger] digit_char(d)) && digit_val(digit_char(d)) == d,
{
    reveal_strlit("0123456789");
    assert forall|d: int|
        0 <= d < 10 implies is_digit(#[trigger] digit_char(d)) && digit_val(digit_char(d))
        == d by {
        if d == 0 {
            assert(digit_char(0) == '0');
        } else if d == 1 {
            assert(digit_char(1) == '1');
        } else if d == 2 {
            assert(digit_char(2) == '2');
        } else if d == 3 {
            assert(digit_char(3) == '3');
        } else if d == 4 {
            assert(digit_char(4) == '4');
        } else if d == 5 {
            assert(digit_char(5) == '5');
        } else if d == 6 {
            assert(digit_char(6) == '6');
        } else if d == 7 {
            assert(digit_char(7) == '7');
        } else if d == 8 {
            assert(digit_char(8) == '8');
        } else {
            assert(digit_char(9) == '9');
        }
    }
}

impl Time {
    /// Parses a clock string of the form `HH:MM:SS`.
    pub fn parse(s: &str) -> (r: Option<Time>)
        ensures
            r == spec_parse_time(s@),
    {
        let n = s.unicode_len();
        if n != 8 {
            return None;
        }
        if s.get_char(2) != ':' || s.get_char(5) != ':' {
            return None;
        }
        let d0 = digit_of(s.get_char(0));
        let d1 = digit_of(s.get_char(1));
        let d3 = digit_of(s.get_char(3));
        let d4 = digit_of(s.get_char(4));
        let d6 = digit_of(s.get_char(6));
        let d7 = digit_of(s.get_char(7));
        match (d0, d1, d3, d4, d6, d7) {
            (Some(a), Some(b), Some(c), Some(d), Some(e), Some(f)) => {
                let h = 10 * a + b;
                let m = 10 * c + d;
                let sec = 10 * e + f;
                if h < 24 && m < 60 && sec < 60 {
                    Some(Time { hour: h as u8, minute: m as u8, second: sec as u8 })
                } else {
                    None
                }
            },
            _ => None,
        }
    }

    /// Renders the time as `HH:MM:SS`.
    pub fn render(&self) -> (r: String)
        requires
            self.wf(),
        ensures
            r@ == spec_render_time(*self),
    {
        let mut out = String::new();
        append_two_digits(&mut out, self.hour);
        out.append(":");
        append_two_digits(&mut out, self.minute);
        out.append(":");
        append_two_digits(&mut out, self.second);
        proof {
            reveal_strlit(":");
            assert(":"@ =~= seq![':']);
            assert(out@ =~= spec_render_time(*self));
        }
        out
    }
}

/// Rendering a well-formed time and parsing it back gives the time itself.
pub proof fn lemma_time_roundtrip(t: Time)
    requires
        t.wf(),
    ensures
        spec_parse_time(spec_render_time(t)) == Some(t),
{
    lemma_digit_chars();
    let s = spec_render_time(t);
    assert(s.len() == 8);
    assert(s[2] == ':' && s[5] == ':');
    assert(10 * (t.hour as int / 10) + t.hour as int % 10 == t.hour as int);
    assert(10 * (t.minute as int / 10) + t.minute as int % 10 == t.minute as int);
    assert(10 * (t.second as int / 10) + t.second as int % 10 == t.second as int);
}

/// One schedule entry: from `start` on, `theme` should be showing.
#[derive(Clone, Copy, Debug, PartialEq, Eq, Structural)]
pub struct Window {
    pub theme: Theme,
    pub start: Time,
}

/// A schedule: the windows of one day, in no particular order.
#[derive(Clone, Debug)]
pub struct Schedule {
    pub windows: Vec<Window>,
}

impl View for Schedule {
    type V = Seq<Window>;

    open spec fn view(&self) -> Seq<Window> {
        self.windows@
    }
}

/// Start time of window `i`, in seconds since midnight.
pub open spec fn start_secs(ws: Seq<Window>, i: int) -> int {
    ws[i].start.spec_secs()
}

/// Among the first `n` windows, the one with the greatest start time that is
/// at or before `t`; `None` when every one of them starts after `t`.
/// Windows with equal start times are resolved toward the later index.
pub open spec fn pick_le(ws: Seq<Window>, t: int, n: int) -> Option<int>
    decreases n,
{
    if n <= 0 {
        None
    } else {
        let rest = pick_le(ws, t, n - 1);
        if start_secs(ws, n - 1) <= t && (rest is None || start_secs(ws, rest->0) <= start_secs(
            ws,
            n - 1,
        )) {
            Some(n - 1)
        } else {
            rest
        }
    }
}

/// Among the first `n` windows, the one with the greatest start time overall,
/// equal start times resolved toward the later index.
pub open spec fn pick_max(ws: Seq<Window>, n: int) -> int
    decreases n,
{
    if n <= 1 {
        0
    } else {
        let rest = pick_max(ws, n - 1);
        if start_secs(ws, rest) <= start_secs(ws, n - 1) {
            n - 1
        } else {
            rest
        }
    }
}

/// The theme a schedule assigns to second-of-day `t`: the theme of the window
/// with the greatest start at or before `t`, or, when `t` precedes every
/// window, the theme of the window with the greatest start of the whole day
/// (the last window of the previous day is still showing).
pub open spec fn spec_theme_for(ws: Seq<Window>, t: int) -> Theme {
    match pick_le(ws, t, ws.len() as int) {
        Some(i) => ws[i].theme,
        None => ws[pick_max(ws, ws.len() as int)].theme,
    }
}

/// What `pick_le` returns is a maximal eligible window, and it returns `None`
/// exactly when no window is eligible.
pub proof fn lemma_pick_le_props(ws: Seq<Window>, t: int, n: int)
    requires
        0 <= n <= ws.len(),
    ensures
        match pick_le(ws, t, n) {
            Some(i) => 0 <= i < n && start_secs(ws, i) <= t && forall|j: int|
                0 <= j < n && #[trigger] start_secs(ws, j) <= t ==> (start_secs(ws, j) < start_secs(
                    ws,
                    i,
                ) || (start_secs(ws, j) == start_secs(ws, i) && j <= i)),
            None => forall|j: int| 0 <= j < n ==> #[trigger] start_secs(ws, j) > t,
        },
    decreases n,
{
    if n > 0 {
        lemma_pick_le_props(ws, t, n - 1);
    }
}

/// What `pick_max` returns is a window with the greatest start among the
/// first `n`, ties resolved toward the later index.
pub proof fn lemma_pick_max_props(ws: Seq<Window>, n: int)
    requires
        1 <= n <= ws.len(),
    ensures
        0 <= pick_max(ws, n) < n,
        forall|j: int|
            0 <= j < n ==> (#[trigger] start_secs(ws, j) < start_secs(ws, pick_max(ws, n)) || (
            start_secs(ws, j) == start_secs(ws, pick_max(ws, n)) && j <= pick_max(ws, n))),
    decreases n,
{
    if n > 1 {
        lemma_pick_max_props(ws, n - 1);
    }
}

/// The theme a non-empty schedule assigns to any time is the theme of one of
/// its windows.
pub proof fn lemma_theme_for_member(ws: Seq<Window>, t: int)
    requires
        ws.len() > 0,
    ensures
        exists|i: int| 0 <= i < ws.len() && ws[i].theme == spec_theme_for(ws, t),
{
    lemma_pick_le_props(ws, t, ws.len() as int);
    lemma_pick_max_props(ws, ws.len() as int);
    match pick_le(ws, t, ws.len() as int) {
        Some(i) => {
            assert(0 <= i < ws.len() && ws[i].theme == spec_theme_for(ws, t));
        },
        None => {
            let i = pick_max(ws, ws.len() as int);
            assert(0 <= i < ws.len() && ws[i].theme == spec_theme_for(ws, t));
        },
    }
}

/// When every window is at or before `t1` exactly when it is at or before
/// `t2`, the two lookups pick the same window.
proof fn lemma_pick_le_same(ws: Seq<Window>, t1: int, t2: int, n: int)
    requires
        0 <= n <= ws.len(),
        forall|j: int|
            0 <= j < ws.len() ==> (#[trigger] start_secs(ws, j) <= t1 <==> start_secs(ws, j)
                <= t2),
    ensures
        pick_le(ws, t1, n) == pick_le(ws, t2, n),
    decreases n,
{
    if n > 0 {
        lemma_pick_le_same(ws, t1, t2, n - 1);
    }
}

/// Monotonicity within a window: two times with no window start strictly
/// between them (in the half-open sense: none in `(t1, t2]`) get the same
/// theme.
pub proof fn lemma_theme_for_monotone(ws: Seq<Window>, t1: int, t2: int)
    requires
        ws.len() > 0,
        t1 < t2,
        forall|j: int|
            0 <= j < ws.len() ==> !(t1 < #[trigger] start_secs(ws, j) && start_secs(ws, j) <= t2),
    ensures
        spec_theme_for(ws, t1) == spec_theme_for(ws, t2),
{
    assert forall|j: int|
        0 <= j < ws.len() implies (#[trigger] start_secs(ws, j) <= t1 <==> start_secs(ws, j)
        <= t2) by {
        assert(!(t1 < start_secs(ws, j) && start_secs(ws, j) <= t2));
    }
    lemma_pick_le_same(ws, t1, t2, ws.len() as int);
}

/// The windows of the default schedule: Light from 07:00, Dark from 17:00.
pub open spec fn spec_default_windows() -> Seq<Window> {
    seq![
        Window { theme: Theme::Light, start: Time { hour: 7, minute: 0, second: 0 } },
        Window { theme: Theme::Dark, start: Time { hour: 17, minute: 0, second: 0 } },
    ]
}

impl Default for Schedule {
    /// The default schedule: Light at 07:00, Dark at 17:00.
    fn default() -> (s: Schedule)
        ensures
            s@ == spec_default_windows(),
    {
        let mut windows: Vec<Window> = Vec::new();
        windows.push(
            Window { theme: Theme::Light, start: Time { hour: 7, minute: 0, second: 0 } },
        );
        windows.push(Window { theme: Theme::Dark, start: Time { hour: 17, minute: 0, second: 0 } });
        proof {
            assert(windows@ =~= spec_default_windows());
        }
        Schedule { windows }
    }
}

/// On the default schedule, the dark window wraps past midnight: both
/// midnight and 23:59 get Dark.
pub proof fn lemma_default_wraparound()
    ensures
        spec_theme_for(spec_default_windows(), 0) == Theme::Dark,
        spec_theme_for(spec_default_windows(), 86340int) == Theme::Dark,
{
    let ws = spec_default_windows();
    assert(ws.len() == 2);
    assert(start_secs(ws, 0) == 25200);
    assert(start_secs(ws, 1) == 61200);
    reveal_with_fuel(pick_le, 3);
    reveal_with_fuel(pick_max, 3);
    assert(pick_le(ws, 0, 2) is None);
    assert(pick_max(ws, 2) == 1);
    assert(pick_le(ws, 86340int, 2) == Some(1int));
}

impl Schedule {
    /// Returns the theme that should be showing at `time`: the theme of the
    /// window with the greatest start at or before `time`, or the theme of
    /// the day's last window when `time` precedes every start (wrap-around
    /// past midnight).
    pub fn theme_from_time(&self, time: &Time) -> (r: Theme)
        requires
            self@.len() > 0,
        ensures
            r == spec_theme_for(self@, time.spec_secs()),
    {
        let t = time.as_secs();
        let n = self.windows.len();
        let mut best_le: Option<usize> = None;
        let mut best_any: usize = 0;
        let mut i: usize = 0;
        while i < n
            invariant
                n == self@.len(),
                n > 0,
                0 <= i <= n,
                t == time.spec_secs(),
                best_any < n,
                (match best_le {
                    Some(b) => Some(b as int),
                    None => None,
                }) == pick_le(self@, t as int, i as int),
                (best_le is Some) ==> best_le->0 < n,
                best_any as int == pick_max(self@, i as int),
            decreases n - i,
        {
            let wi_secs = self.windows[i].start.as_secs();
            let take_le = match best_le {
                Some(b) => wi_secs <= t && self.windows[b].start.as_secs() <= wi_secs,
                None => wi_secs <= t,
            };
            if take_le {
                best_le = Some(i);
            }
            if self.windows[best_any].start.as_secs() <= wi_secs {
                best_any = i;
            }
            i = i + 1;
        }
        match best_le {
            Some(b) => self.windows[b].theme,
            None => self.windows[best_any].theme,
        }
    }
}

} // verus!

