//! Decisions about the members of the server: who gets an intro played on
//! joining a voice channel, who gets which roles on joining the server, and
//! whether a draw of secret santas pairs someone with themselves.

use crate::notify::mention;
use crate::predict::{contains_text, occurs_in};
use crate::store::has_subscriber;
use crate::text::push_decimal;
use vstd::prelude::*;
use vstd::string::StringExecFns;

verus! {

/// The bot's own user number.
pub const BOT_ID: u64 = 909567837964746863;

/// The channel to play an intro in, for a user whose voice state changed:
/// the channel they are in now, provided they are not the bot and were in
/// no channel before.
pub open spec fn intro_channel(user_id: u64, was_connected: bool, channel: Option<u64>) -> Result<
    u64,
    (),
> {
    if user_id == BOT_ID || was_connected {
        Err(())
    } else {
        match channel {
            Some(c) => Ok(c),
            None => Err(()),
        }
    }
}

/// The channel to play an intro in, for a user whose voice state changed.
pub fn checkError(user_id: u64, was_connected: bool, channel: Option<u64>) -> (r: Result<u64, ()>)
    ensures
        r == intro_channel(user_id, was_connected, channel),
{
    if user_id == BOT_ID {
        return Err(());
    }
    if was_connected {
        return Err(());
    }
    match channel {
        Some(c) => Ok(c),
        None => Err(()),
    }
}

/// A member who is greeted with the greater role.
pub const ID_MORITZ: u64 = 366590223196356608;

/// A member who is greeted with two roles.
pub const ID_DANA: u64 = 204281179636105226;

/// A member who is greeted with the lesser role.
pub const ID_FLO: u64 = 389063964836888579;

/// A member who is greeted with the lesser role.
pub const ID_VALI: u64 = 299215764920205314;

/// A member's phone account.
pub const ID_DANA_PHONE: u64 = 759736758534668348;

/// A member's phone account.
pub const ID_FLO_PHONE: u64 = 891006371967926282;

/// A member's phone account.
pub const ID_MASL_PHONE: u64 = 1080477409658290186;

/// The role of a member who came back.
pub const ROLE_REINCARNATION: u64 = 896806202657341451;

/// The role of a phone account.
pub const ROLE_MOBILE: u64 = 1047203633080586340;

/// The greater role.
pub const ROLE_GREATER_YIKE: u64 = 1047202830487928853;

/// The lesser role.
pub const ROLE_LESSER_YIKES: u64 = 1047201004560592906;

/// The role of a member nobody knows.
pub const ROLE_REFUGEE: u64 = 905199210809397259;

/// The roles that a member gets on joining, by their user number; a
/// stranger is a refugee.
pub open spec fn roles_of(member_id: u64) -> Seq<u64> {
    if member_id == ID_DANA {
        seq![ROLE_REINCARNATION, ROLE_GREATER_YIKE]
    } else if member_id == ID_MORITZ {
        seq![ROLE_GREATER_YIKE]
    } else if member_id == ID_DANA_PHONE || member_id == ID_FLO_PHONE || member_id
        == ID_MASL_PHONE {
        seq![ROLE_MOBILE]
    } else if member_id == ID_FLO || member_id == ID_VALI {
        seq![ROLE_LESSER_YIKES]
    } else {
        seq![ROLE_REFUGEE]
    }
}

/// The roles that a member gets on joining.
pub fn resolveRoles(member_id: u64) -> (role_ids: Vec<u64>)
    ensures
        role_ids@ == roles_of(member_id),
{
    let mut role_ids: Vec<u64> = Vec::with_capacity(2);
    if member_id == ID_DANA {
        role_ids.push(ROLE_REINCARNATION);
        role_ids.push(ROLE_GREATER_YIKE);
    } else if member_id == ID_MORITZ {
        role_ids.push(ROLE_GREATER_YIKE);
    } else if member_id == ID_DANA_PHONE || member_id == ID_FLO_PHONE || member_id
        == ID_MASL_PHONE {
        role_ids.push(ROLE_MOBILE);
    } else if member_id == ID_FLO || member_id == ID_VALI {
        role_ids.push(ROLE_LESSER_YIKES);
    } else {
        role_ids.push(ROLE_REFUGEE);
    }
    assert(role_ids@ =~= roles_of(member_id));
    role_ids
}

/// Whether some place holds the same user in both lists: someone would be
/// their own secret santa.
pub open spec fn some_pair_equal(gifter: Seq<u64>, giftee: Seq<u64>) -> bool {
    exists|i: int| 0 <= i < gifter.len() && i < giftee.len() && gifter[i] == giftee[i]
}

/// Whether some place holds the same user in both lists.
pub fn has_self_gift(gifter: &Vec<u64>, giftee: &Vec<u64>) -> (found: bool)
    ensures
        found == some_pair_equal(gifter@, giftee@),
{
    let mut i: usize = 0;
    while i < gifter.len() && i < giftee.len()
        invariant
            forall|k: int| 0 <= k < i ==> gifter@[k] != giftee@[k],
            i <= gifter@.len(),
            i <= giftee@.len(),
        decreases gifter.len() - i,
    {
        if gifter[i] == giftee[i] {
            return true;
        }
        i += 1;
    }
    false
}

/// A channel of the server, as far as voice is concerned.
#[derive(Debug, Clone, PartialEq, Eq)]
pub struct Channel {
    /// The number of the channel.
    pub id: u64,
    /// Whether it is a voice channel.
    pub voice: bool,
    /// The users in the channel; none where they could not be told.
    pub members: Option<Vec<u64>>,
}

impl Channel {
    /// Whether `user` is known to be in this channel, and it is a voice
    /// channel.
    pub open spec fn hosts(&self, user: u64) -> bool {
        self.voice && self.members is Some && self.members->0@.contains(user)
    }

    /// Whether `user` is known to be in this channel, and it is a voice
    /// channel.
    pub fn is_hosting(&self, user: u64) -> (b: bool)
        ensures
            b == self.hosts(user),
    {
        if !self.voice {
            return false;
        }
        match &self.members {
            Some(members) => has_subscriber(members, user),
            None => false,
        }
    }
}

/// The first place at or after `from` of a voice channel that `user` is
/// in; the number of channels where there is none.
pub open spec fn first_hosting(channels: Seq<Channel>, user: u64, from: int) -> int
    decreases channels.len() - from,
{
    if from < 0 || from >= channels.len() {
        channels.len() as int
    } else if channels[from].hosts(user) {
        from
    } else {
        first_hosting(channels, user, from + 1)
    }
}

/// The voice channel that `user` is in: the first of `channels` that
/// hosts them.
pub open spec fn voice_of(channels: Seq<Channel>, user: u64) -> Option<u64> {
    let at = first_hosting(channels, user, 0);
    if at < channels.len() {
        Some(channels[at].id)
    } else {
        None
    }
}

/// The voice channel that the user `author_id` is in, if any.
pub fn getVoiceIfActive(author_id: u64, channels: &Vec<Channel>) -> (channel: Option<u64>)
    ensures
        channel == voice_of(channels@, author_id),
{
    let mut i: usize = 0;
    while i < channels.len()
        invariant
            i <= channels.len(),
            first_hosting(channels@, author_id, 0) == first_hosting(
                channels@,
                author_id,
                i as int,
            ),
        decreases channels.len() - i,
    {
        if channels[i].is_hosting(author_id) {
            return Some(channels[i].id);
        }
        i += 1;
    }
    None
}

/// Whether the bot is in a voice channel already.
pub fn checkDuplicate(channels: &Vec<Channel>) -> (found: bool)
    ensures
        found == (voice_of(channels@, BOT_ID) is Some),
{
    getVoiceIfActive(BOT_ID, channels).is_some()
}

/// What a request about the secret santa asks for.
#[derive(Clone, Copy, Debug, PartialEq, Eq, Structural)]
pub enum SantaMode {
    /// The author takes part.
    Register,
    /// The author no longer takes part.
    Remove,
    /// The draw, where at least two take part.
    Start,
    /// The draw was asked for, but fewer than two take part.
    TooFew,
    /// Nothing but a look at who takes part.
    Show,
}

/// What the request `content` asks for while `members` take part: the
/// first of the words register, remove and start, in this order, that
/// occurs in it decides.
pub open spec fn santa_mode(content: Seq<char>, members: int) -> SantaMode {
    if occurs_in(content, "register"@) {
        SantaMode::Register
    } else if occurs_in(content, "remove"@) {
        SantaMode::Remove
    } else if occurs_in(content, "start"@) {
        if members < 2 {
            SantaMode::TooFew
        } else {
            SantaMode::Start
        }
    } else {
        SantaMode::Show
    }
}

/// What the request `content` asks for while `members` take part.
pub fn santaHandler(content: &str, members: usize) -> (mode: SantaMode)
    ensures
        mode == santa_mode(content@, members as int),
{
    if contains_text(content, "register") {
        SantaMode::Register
    } else if contains_text(content, "remove") {
        SantaMode::Remove
    } else if contains_text(content, "start") {
        if members < 2 {
            SantaMode::TooFew
        } else {
            SantaMode::Start
        }
    } else {
        SantaMode::Show
    }
}

/// What a member is told about the one they give to.
pub fn dmUser(rec: u64) -> (msg: String)
    ensures
        msg@ == "Your Secret Santa is "@ + mention(rec),
{
    let mut msg: String = "Your Secret Santa is <@".to_owned();
    push_decimal(&mut msg, rec);
    msg.append(">");
    assert(msg@ =~= "Your Secret Santa is "@ + mention(rec)) by {
        reveal_strlit("Your Secret Santa is <@");
        reveal_strlit("Your Secret Santa is ");
        reveal_strlit("<@");
    }
    msg
}

} // verus!
