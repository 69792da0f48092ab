//! Small helpers around the bot's files: the path of a user's sound file
//! and the text of a duration.

use crate::text::{decimal, padded, push_decimal, push_padded};
use vstd::prelude::*;
use vstd::string::StringExecFns;

verus! {

/// The characters other than the at sign.
pub open spec fn not_at() -> spec_fn(char) -> bool {
    |c: char| c != '@'
}

/// The path of the sound file of the user `name`: the name without its at
/// signs, in the sound directory, as an mp3 file.
pub open spec fn sound_path(name: Seq<char>) -> Seq<char> {
    "./src/vid/"@ + name.filter(not_at()) + ".mp3"@
}

/// The path of the sound file of the user `name`.
pub fn removeUserAt(name: String) -> (path: String)
    ensures
        path@ == sound_path(name@),
{
    let mut user_id: String = "./src/vid/".to_owned();
    let ghost start = user_id@;
    let text: &str = name.as_str();
    let len: usize = text.unicode_len();
    let mut i: usize = 0;
    proof {
        reveal(Seq::filter);
        assert(name@.take(0) =~= Seq::<char>::empty());
    }
    while i < len
        invariant
            i <= len,
            len == name@.len(),
            text@ == name@,
            user_id@ == start + name@.take(i as int).filter(not_at()),
        decreases len - i,
    {
        let c: char = text.get_char(i);
        proof {
            reveal(Seq::filter);
            assert(name@.take(i + 1).drop_last() =~= name@.take(i as int));
        }
        if c != '@' {
            user_id.push(c);
        }
        i += 1;
    }
    assert(name@.take(len as int) =~= name@);
    user_id.append(".mp3");
    user_id
}

/// The text of a duration of `secs` seconds: the whole hours, the whole
/// minutes in at least two digits, and the seconds past the minute in two
/// digits, with colons between them.
pub open spec fn duration_text(secs: nat) -> Seq<char> {
    decimal(secs / 3600) + seq![':'] + padded(secs / 60, 2) + seq![':'] + padded(secs % 60, 2)
}

/// The text of a duration of `secs` seconds.
pub fn formatSec(secs: u64) -> (out: String)
    ensures
        out@ == duration_text(secs as nat),
{
    let hours: u64 = secs / 3600;
    let minutes: u64 = secs / 60;
    let seconds: u64 = secs % 60;
    let mut out: String = String::new();
    push_decimal(&mut out, hours);
    out.push(':');
    push_padded(&mut out, minutes, 2);
    out.push(':');
    push_padded(&mut out, seconds, 2);
    assert(out@ =~= duration_text(secs as nat));
    out
}

} // verus!
