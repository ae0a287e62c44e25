//! What the MPRIS (`org.mpris.MediaPlayer2`) interface reports and asks
//! for, read from the same player status the CLI's status query shows.
use crate::cast::CastEvent;
use crate::runtime::{NowPlaying, PlayerStatus};
use crate::text::{chars_of, owned, push_str};
use vstd::prelude::*;

verus! {

/// `c` stays in an object path segment: ASCII letters and digits.
pub open spec fn path_char(c: char) -> bool {
    ('a' <= c && c <= 'z') || ('A' <= c && c <= 'Z') || ('0' <= c && c <= '9')
}

/// A D-Bus object path for an item: its id with every character that may
/// not stand in a path segment (a GUID's hyphens) replaced by `_`.
pub open spec fn track_path(item_id: Seq<char>) -> Seq<char> {
    "/org/jellysink/track/"@ + item_id.map_values(|c: char| if path_char(c) { c } else { '_' })
}

pub fn track_id(item_id: &str) -> (r: String)
    ensures
        r@ == track_path(item_id@),
{
    let cs = chars_of(item_id);
    let mut r = owned("/org/jellysink/track/");
    let ghost head = r@;
    let mut i: usize = 0;
    while i < cs.len()
        invariant
            i <= cs@.len(),
            cs@ == item_id@,
            r@ == head + item_id@.take(i as int).map_values(
                |c: char| if path_char(c) { c } else { '_' },
            ),
        decreases cs@.len() - i,
    {
        let c = cs[i];
        let keep = ('a' <= c && c <= 'z') || ('A' <= c && c <= 'Z') || ('0' <= c && c <= '9');
        if keep {
            r.push(c);
        } else {
            r.push('_');
        }
        assert(item_id@.take(i + 1).map_values(|c: char| if path_char(c) { c } else { '_' })
            =~= item_id@.take(i as int).map_values(|c: char| if path_char(c) { c } else { '_' }).push(
            if path_char(c) { c } else { '_' },
        ));
        i = i + 1;
    }
    assert(item_id@.take(cs@.len() as int) == item_id@);
    r
}

/// `Stopped` with nothing playing, else `Paused` or `Playing`.
pub fn playback_status(status: &PlayerStatus) -> (r: &'static str)
    ensures
        r@ == match status.now_playing {
            None => "Stopped"@,
            Some(np) => if np.is_paused {
                "Paused"@
            } else {
                "Playing"@
            },
        },
{
    match &status.now_playing {
        None => "Stopped",
        Some(np) => if np.is_paused {
            "Paused"
        } else {
            "Playing"
        },
    }
}

/// Ticks (100 ns) to microseconds, truncating toward zero.
pub open spec fn ticks_to_micros(ticks: i64) -> i64 {
    if ticks >= 0 {
        (ticks / 10) as i64
    } else {
        (-((-ticks) / 10)) as i64
    }
}

/// The playback position in microseconds; 0 with nothing playing.
pub fn position(status: &PlayerStatus) -> (r: i64)
    ensures
        r == match status.now_playing {
            None => 0,
            Some(np) => ticks_to_micros(np.position_ticks),
        },
{
    match &status.now_playing {
        None => 0,
        Some(np) => np.position_ticks / 10,
    }
}

/// The volume in percent, which the MPRIS `Volume` property scales to
/// `0.0..=1.0`; full volume with nothing playing.
pub fn volume_percent(status: &PlayerStatus) -> (r: i64)
    ensures
        r == match status.now_playing {
            None => 100,
            Some(np) => np.volume,
        },
{
    match &status.now_playing {
        None => 100,
        Some(np) => np.volume,
    }
}

/// What the desktop may ask for.
#[derive(Debug, Clone, Copy, PartialEq, Eq, Structural)]
pub struct Controls {
    pub can_go_next: bool,
    pub can_go_previous: bool,
    pub can_play: bool,
    pub can_pause: bool,
    pub can_seek: bool,
}

/// Next and previous follow the queue; play, pause and seek need something
/// playing.
pub fn controls(status: &PlayerStatus) -> (r: Controls)
    ensures
        r.can_go_next == (status.now_playing matches Some(np) && np.has_next),
        r.can_go_previous == (status.now_playing matches Some(np) && np.has_previous),
        r.can_play == status.now_playing is Some,
        r.can_pause == status.now_playing is Some,
        r.can_seek == status.now_playing is Some,
{
    match &status.now_playing {
        None => Controls {
            can_go_next: false,
            can_go_previous: false,
            can_play: false,
            can_pause: false,
            can_seek: false,
        },
        Some(np) => Controls {
            can_go_next: np.has_next,
            can_go_previous: np.has_previous,
            can_play: true,
            can_pause: true,
            can_seek: true,
        },
    }
}

/// `n` clamped into `i64`.
pub open spec fn clamp_i64(n: int) -> i64 {
    if n < i64::MIN {
        i64::MIN
    } else if n > i64::MAX {
        i64::MAX
    } else {
        n as i64
    }
}

fn saturating_add(a: i64, b: i64) -> (r: i64)
    ensures
        r == clamp_i64(a + b),
{
    let s: i128 = a as i128 + b as i128;
    if s < -9223372036854775808i128 {
        i64::MIN
    } else if s > 9223372036854775807i128 {
        i64::MAX
    } else {
        s as i64
    }
}

fn saturating_mul_ten(a: i64) -> (r: i64)
    ensures
        r == clamp_i64(a * 10),
{
    let s: i128 = a as i128 * 10;
    if s < -9223372036854775808i128 {
        i64::MIN
    } else if s > 9223372036854775807i128 {
        i64::MAX
    } else {
        s as i64
    }
}

/// A relative seek by `offset` microseconds, from the current position,
/// never before the start; nothing with nothing playing.
pub fn seek_event(status: &PlayerStatus, offset: i64) -> (r: Option<CastEvent>)
    ensures
        match status.now_playing {
            None => r is None,
            Some(np) => {
                let t = clamp_i64(np.position_ticks + clamp_i64(offset * 10));
                r == Some(CastEvent::Seek { ticks: if t < 0 { 0 } else { t } })
            },
        },
{
    match &status.now_playing {
        None => None,
        Some(np) => {
            let t = saturating_add(np.position_ticks, saturating_mul_ten(offset));
            Some(CastEvent::Seek { ticks: if t < 0 { 0 } else { t } })
        },
    }
}

/// An absolute seek to `position` microseconds, only when `track` is the
/// current item's path (a no-op otherwise, per the MPRIS spec).
pub fn set_position_event(status: &PlayerStatus, track: &str, position: i64) -> (r: Option<CastEvent>)
    ensures
        match status.now_playing {
            Some(np) => if track_path(np.item_id@) == track@ {
                let t = clamp_i64(position * 10);
                r == Some(CastEvent::Seek { ticks: if t < 0 { 0 } else { t } })
            } else {
                r is None
            },
            None => r is None,
        },
{
    match &status.now_playing {
        None => None,
        Some(np) => {
            let current = track_id(np.item_id.as_str());
            if crate::text::str_eq(current.as_str(), track) {
                let t = saturating_mul_ten(position);
                Some(CastEvent::Seek { ticks: if t < 0 { 0 } else { t } })
            } else {
                None
            }
        },
    }
}

} // verus!
