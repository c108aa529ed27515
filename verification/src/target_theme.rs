//! The toggle resolver: which theme a toggle should apply, from the
//! persisted state when it is readable, from the schedule otherwise.

use vstd::prelude::*;

use chrono::Timelike;

use crate::config::Config;
use crate::schedule::{spec_theme_for, Time, Window};
use crate::state::{load_from, spec_parse_state};
use crate::theme::Theme;

verus! {

/// Relies on chrono's Local::now and Timelike: the local wall-clock time of
/// day, whose hour, minute and second chrono documents as lying below 24, 60
/// and 60.
#[verifier::external_body]
fn now_time() -> (r: Time)
    ensures
        r.wf(),
{
    let now = chrono::Local::now().time();
    Time { hour: now.hour() as u8, minute: now.minute() as u8, second: now.second() as u8 }
}

/// The theme a toggle aims for: the opposite of a cleanly loaded state, and
/// the theme the schedule assigns to `now` when there is no state to read
/// (missing and unreadable alike).
pub open spec fn spec_target_theme(
    ws: Seq<Window>,
    loaded: Option<Theme>,
    now: int,
) -> Theme {
    match loaded {
        Some(t) => t.spec_opposite(),
        None => spec_theme_for(ws, now),
    }
}

/// The theme the state file contents name, when they parse.
pub open spec fn spec_loaded_theme(contents: Option<Seq<char>>) -> Option<Theme> {
    match contents {
        None => None,
        Some(s) => spec_parse_state(s),
    }
}

/// The characters of optional state file contents.
pub open spec fn spec_contents_view(contents: Option<&str>) -> Option<Seq<char>> {
    match contents {
        None => None,
        Some(s) => Some(s@),
    }
}

/// The theme the schedule assigns to the current wall-clock time.
pub fn get_theme_from_schedule(config: &Config) -> (r: Theme)
    requires
        config.schedule@.len() > 0,
    ensures
        exists|now: int| 0 <= now < 86400 && r == spec_theme_for(config.schedule@, now),
{
    let now = now_time();
    proof {
        assert(0 <= now.spec_secs() < 86400);
    }
    config.schedule.theme_from_time(&now)
}

/// The toggle decision at a known time: the opposite of the persisted theme,
/// or the schedule's answer for `now` when the state is missing or corrupt.
pub fn get_at(config: &Config, state_contents: Option<&str>, now: &Time) -> (r: Theme)
    requires
        config.schedule@.len() > 0,
    ensures
        r == spec_target_theme(
            config.schedule@,
            spec_loaded_theme(spec_contents_view(state_contents)),
            now.spec_secs(),
        ),
{
    match load_from(state_contents) {
        Ok(st) => {
            if state_contents.is_none() {
                // No state on disk: nothing reliable was applied last, so
                // follow the schedule rather than flip its default.
                config.schedule.theme_from_time(now)
            } else {
                st.current_theme.opposite()
            }
        },
        Err(_) => config.schedule.theme_from_time(now),
    }
}

/// The toggle decision at the current wall-clock time.
pub fn get(config: &Config, state_contents: Option<&str>) -> (r: Theme)
    requires
        config.schedule@.len() > 0,
    ensures
        exists|now: int|
            0 <= now < 86400 && r == #[trigger] spec_target_theme(
                config.schedule@,
                spec_loaded_theme(spec_contents_view(state_contents)),
                now,
            ),
{
    let now = now_time();
    proof {
        assert(0 <= now.spec_secs() < 86400);
    }
    get_at(config, state_contents, &now)
}

/// Right after a state for theme `t` was persisted, a toggle aims for the
/// opposite of `t`.
pub proof fn lemma_toggle_after_save(ws: Seq<Window>, t: Theme, now: int)
    ensures
        spec_target_theme(ws, spec_loaded_theme(Some(crate::state::spec_state_file(t))), now)
            == t.spec_opposite(),
{
    crate::state::lemma_state_roundtrip(t);
}

} // verus!
