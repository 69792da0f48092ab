//! Timers and sound clips: how long a timer runs and what is said of it,
//! and which part of a video a clip takes.

use crate::helper::{duration_text, formatSec};
use crate::parse::{captured, captures, group, group_text, parse_first_match};
use crate::text::{decimal, numeral_value, parse_number, push_decimal};
use vstd::prelude::*;
use vstd::string::StringExecFns;

verus! {

/// The field that gives the minutes of a timer.
pub const MINUTES_PATTERN: &'static str = "minutes=([0-9]{1,3})";

/// The field that gives the seconds of a timer.
pub const SECONDS_PATTERN: &'static str = "seconds=([0-9]{1,2})";

/// The field that gives the second at which a clip starts.
pub const START_PATTERN: &'static str = "start=([0-9]+)";

/// The field that gives the length of a clip in seconds.
pub const LENGTH_PATTERN: &'static str = "length=([0-9]{1,2})";

/// The longest clip, in seconds.
pub const LONGEST_CLIP: u64 = 10;

/// The length of a clip where none is asked for, in seconds.
pub const USUAL_CLIP: u64 = 5;

/// The number that the first group of a match spells: none where there is
/// no match, the group took no part in it, or it is no numeral of 64 bits.
pub open spec fn amount_of(found: Option<Seq<Option<Seq<char>>>>) -> Option<u64> {
    match group(found, 1) {
        Some(s) => match numeral_value(s, u64::MAX as nat) {
            Some(n) => Some(n as u64),
            None => None,
        },
        None => None,
    }
}

/// The number that the first group of a match spells.
pub fn amount_from(found: &Option<Vec<Option<String>>>) -> (n: Option<u64>)
    ensures
        n == amount_of(found.deep_view()),
{
    match group_text(found, 1) {
        Some(s) => parse_number(s.as_str(), u64::MAX),
        None => None,
    }
}

/// The minutes and seconds of a timer: each 0 where not given, the seconds
/// 59 at most.
pub open spec fn timer_parts(minutes: Option<u64>, seconds: Option<u64>) -> (u64, u64) {
    (
        match minutes {
            Some(m) => m,
            None => 0,
        },
        match seconds {
            Some(s) => if s > 59 {
                59
            } else {
                s
            },
            None => 0,
        },
    )
}

/// The minutes and seconds of a timer.
pub fn timer_span(minutes: Option<u64>, seconds: Option<u64>) -> (parts: (u64, u64))
    ensures
        parts == timer_parts(minutes, seconds),
{
    let u_min: u64 = match minutes {
        Some(m) => m,
        None => 0,
    };
    let u_sec: u64 = match seconds {
        Some(s) => if s > 59 {
            59
        } else {
            s
        },
        None => 0,
    };
    (u_min, u_sec)
}

/// The minutes and seconds of the timer that `cmd` asks for.
pub fn timer_request(cmd: &str) -> (parts: (u64, u64))
    ensures
        parts == timer_parts(
            amount_of(captured(MINUTES_PATTERN@, cmd@)),
            amount_of(captured(SECONDS_PATTERN@, cmd@)),
        ),
{
    let minutes: Option<u64> = amount_from(&captures(MINUTES_PATTERN, cmd));
    let seconds: Option<u64> = amount_from(&captures(SECONDS_PATTERN, cmd));
    timer_span(minutes, seconds)
}

/// Whether the timer runs at all.
pub fn is_set(parts: (u64, u64)) -> (set: bool)
    ensures
        set == (parts.0 + parts.1 != 0),
{
    parts.0 != 0 || parts.1 != 0
}

/// How many seconds a timer of `min` minutes and `sec` seconds runs.
pub fn timer_seconds(min: u64, sec: u64) -> (seconds: u64)
    requires
        min * 60 + sec <= u64::MAX,
    ensures
        seconds == min * 60 + sec,
{
    min * 60 + sec
}

/// What is said when a timer is set.
pub open spec fn timer_phrase(min: u64, sec: u64) -> Seq<char> {
    "Timer set for "@ + decimal(min as nat) + " minute(s) and "@ + decimal(sec as nat)
        + " second(s)"@
}

/// What is said when a timer is set.
pub fn buildTimerPhrase(min: &u64, sec: &u64) -> (out: String)
    ensures
        out@ == timer_phrase(*min, *sec),
{
    let mut out: String = "Timer set for ".to_owned();
    push_decimal(&mut out, *min);
    out.append(" minute(s) and ");
    push_decimal(&mut out, *sec);
    out.append(" second(s)");
    assert(out@ =~= timer_phrase(*min, *sec));
    out
}

/// What is said when a timer has run out for `user`.
pub open spec fn timer_over_phrase(user: u64) -> Seq<char> {
    "Your timer has ended!\n<@"@ + decimal(user as nat) + ">"@
}

/// What is said when a timer has run out for `user`.
pub fn timer_over(user: u64) -> (out: String)
    ensures
        out@ == timer_over_phrase(user),
{
    let mut out: String = "Your timer has ended!\n<@".to_owned();
    push_decimal(&mut out, user);
    out.append(">");
    assert(out@ =~= timer_over_phrase(user));
    out
}

/// The second at which a clip of a video of `v_length` seconds starts: the
/// second asked for, two seconds before the end where that lies at or past
/// the end, the beginning where none is asked for.
pub open spec fn start_of_clip(requested: Option<u64>, v_length: u64) -> int {
    match requested {
        Some(n) => if n >= v_length {
            v_length - 2
        } else {
            n as int
        },
        None => 0,
    }
}

/// The second at which a clip starts.
pub fn clip_start(requested: Option<u64>, v_length: u64) -> (start: u64)
    requires
        requested is Some && requested->0 >= v_length ==> v_length >= 2,
    ensures
        start == start_of_clip(requested, v_length),
{
    match requested {
        Some(n) => if n >= v_length {
            v_length - 2
        } else {
            n
        },
        None => 0,
    }
}

/// The length asked for, held between one second and the longest clip.
pub open spec fn held(requested: u64) -> u64 {
    if requested > LONGEST_CLIP {
        LONGEST_CLIP
    } else if requested < 1 {
        1
    } else {
        requested
    }
}

/// The length of a clip that starts at `v_start` in a video of `v_length`
/// seconds: the length asked for, between one and ten seconds, or five
/// seconds where none is asked for; the rest of the video where the clip
/// would reach its end.
pub open spec fn length_of_clip(requested: Option<u64>, v_length: u64, v_start: u64) -> int {
    match requested {
        Some(n) => if held(n) + v_start >= v_length {
            v_length - v_start
        } else {
            held(n) as int
        },
        None => if v_start + USUAL_CLIP > v_length {
            v_length - v_start
        } else {
            USUAL_CLIP as int
        },
    }
}

/// The length of a clip.
pub fn clip_length(requested: Option<u64>, v_length: u64, v_start: u64) -> (len: u64)
    requires
        v_start <= v_length,
    ensures
        len == length_of_clip(requested, v_length, v_start),
{
    match requested {
        Some(n) => {
            let mut len: u64 = n;
            if len > LONGEST_CLIP {
                len = LONGEST_CLIP;
            } else if len < 1 {
                len = 1;
            }
            if len >= v_length - v_start {
                len = v_length - v_start;
            }
            len
        },
        None => {
            let mut len: u64 = USUAL_CLIP;
            if len > v_length - v_start {
                len = v_length - v_start;
            }
            len
        },
    }
}

/// The second at which the clip that `msg` asks for starts in a video of
/// `v_length` seconds; none where the start asked for lies at or past the
/// end of a video shorter than two seconds.
pub fn matchStart(msg: &str, v_length: &u64) -> (start: Option<u64>)
    ensures
        start == {
            let requested = amount_of(captured(START_PATTERN@, msg@));
            if requested is Some && requested->0 >= *v_length && *v_length < 2 {
                None
            } else {
                Some(start_of_clip(requested, *v_length) as u64)
            }
        },
{
    let requested: Option<u64> = amount_from(&captures(START_PATTERN, msg));
    match requested {
        Some(n) => {
            if n >= *v_length && *v_length < 2 {
                return None;
            }
        },
        None => {},
    }
    Some(clip_start(requested, *v_length))
}

/// The length of the clip that `msg` asks for, starting at `v_start` in a
/// video of `v_length` seconds; none where the start lies past the end.
pub fn matchLength(msg: &str, v_length: &u64, v_start: &u64) -> (len: Option<u64>)
    ensures
        len == if *v_start > *v_length {
            None
        } else {
            Some(
                length_of_clip(amount_of(captured(LENGTH_PATTERN@, msg@)), *v_length, *v_start) as u64,
            )
        },
{
    if *v_start > *v_length {
        return None;
    }
    let requested: Option<u64> = amount_from(&captures(LENGTH_PATTERN, msg));
    Some(clip_length(requested, *v_length, *v_start))
}

/// A link to a video, long or short, with the eleven characters that name
/// the video.
pub const VIDEO_PATTERN: &'static str =
    "https://(?:www)?\\.?youtu\\.?be\\.?(?:com)?/?(?:watch\\?v=)?(.{11})";

/// The eleven characters that name the video that `content` links to.
pub fn video_id(content: &str) -> (id: Option<String>)
    ensures
        id.deep_view() == group(captured(VIDEO_PATTERN@, content@), 1),
{
    parse_first_match(content, VIDEO_PATTERN)
}

/// What is said when setting a sound clip fails at stage `case`.
pub open spec fn failure_text(case: u8) -> Seq<char> {
    if case == 0 {
        "No valid Youtube Link given!"@
    } else if case == 1 {
        "Unable to download Video!"@
    } else if case == 2 {
        "Unable to edit video, old video has been overwritten!"@
    } else {
        "Invalid Case! / Not Implemented!"@
    }
}

/// What is said when setting a sound clip fails at stage `case`.
pub fn errHandle(case: u8) -> (err: &'static str)
    ensures
        err@ == failure_text(case),
{
    if case == 0 {
        "No valid Youtube Link given!"
    } else if case == 1 {
        "Unable to download Video!"
    } else if case == 2 {
        "Unable to edit video, old video has been overwritten!"
    } else {
        "Invalid Case! / Not Implemented!"
    }
}

/// What is said when a sound clip was set for the user named `user`.
pub fn set_response(user: &str) -> (out: String)
    ensures
        out@ == "New video set!\nFor User: "@ + user@,
{
    let mut out: String = "New video set!\nFor User: ".to_owned();
    out.append(user);
    out
}

/// A video and the clip to take from it.
#[derive(Debug, Clone, PartialEq, Eq)]
pub struct VidInfo {
    pub name: String,
    pub v_length: u64,
    pub start: u64,
    pub u_length: u64,
    pub u_id: String,
}

/// The clip that `content` asks for from a video of `v_length` seconds:
/// its start and its length; none where the start asked for lies at or past
/// the end of a video shorter than two seconds.
pub open spec fn clip_of(content: Seq<char>, v_length: u64) -> Option<(u64, u64)> {
    let asked = amount_of(captured(START_PATTERN@, content));
    if asked is Some && asked->0 >= v_length && v_length < 2 {
        None
    } else {
        let start = start_of_clip(asked, v_length) as u64;
        Some(
            (
                start,
                length_of_clip(amount_of(captured(LENGTH_PATTERN@, content)), v_length, start) as u64,
            ),
        )
    }
}

/// Sets start and length of the clip that `content` asks for, and the user
/// it is for. Returns whether there is such a clip; where there is none,
/// `vid` stays as it was.
pub fn updateInfo(vid: &mut VidInfo, content: &str, author: u64) -> (set: bool)
    ensures
        set == (clip_of(content@, old(vid).v_length) is Some),
        final(vid).name == old(vid).name,
        final(vid).v_length == old(vid).v_length,
        match clip_of(content@, old(vid).v_length) {
            Some((start, length)) => final(vid).start == start && final(vid).u_length == length
                && final(vid).u_id@ == decimal(author as nat),
            None => *final(vid) == *old(vid),
        },
{
    let v_length: u64 = vid.v_length;
    let start: u64 = match matchStart(content, &v_length) {
        Some(s) => s,
        None => {
            return false;
        },
    };
    assert(start <= v_length);
    let length: u64 = match matchLength(content, &v_length, &start) {
        Some(l) => l,
        None => {
            return false;
        },
    };
    let mut u_id: String = String::new();
    push_decimal(&mut u_id, author);
    assert(u_id@ =~= decimal(author as nat));
    vid.start = start;
    vid.u_length = length;
    vid.u_id = u_id;
    true
}

/// The part of a video to download: from `start` for `length` seconds, both
/// ends written as durations.
pub open spec fn section_text(start: u64, length: u64) -> Seq<char> {
    "*"@ + duration_text(start as nat) + "-"@ + duration_text((start + length) as nat)
}

/// The part of a video to download.
pub fn download_section(start: u64, length: u64) -> (section: String)
    requires
        start + length <= u64::MAX,
    ensures
        section@ == section_text(start, length),
{
    let mut section: String = "*".to_owned();
    section.append(formatSec(start).as_str());
    section.append("-");
    section.append(formatSec(start + length).as_str());
    section
}

/// The address of the video named `yt`.
pub fn video_address(yt: &str) -> (form: String)
    ensures
        form@ == "https://www.youtube.com/watch?v="@ + yt@,
{
    let mut form: String = "https://www.youtube.com/watch?v=".to_owned();
    form.append(yt);
    form
}

/// The command line that downloads `section` of the video named `yt` as an
/// mp3 file at `path`.
pub open spec fn download_text(path: Seq<char>, section: Seq<char>, yt: Seq<char>) -> Seq<char> {
    "yt-dlp -o "@ + path + " --download-sections "@ + section
        + " -x --audio-format mp3 -f bestaudio https://www.youtube.com/watch?v="@ + yt
        + " --force-overwrites --force-keyframes-at-cuts"@
}

/// The command line that downloads a part of a video.
pub fn download_command(path: &str, section: &str, yt: &str) -> (command: String)
    ensures
        command@ == download_text(path@, section@, yt@),
{
    let mut command: String = "yt-dlp -o ".to_owned();
    command.append(path);
    command.append(" --download-sections ");
    command.append(section);
    command.append(" -x --audio-format mp3 -f bestaudio https://www.youtube.com/watch?v=");
    command.append(yt);
    command.append(" --force-overwrites --force-keyframes-at-cuts");
    assert(command@ =~= download_text(path@, section@, yt@));
    command
}

} // verus!
