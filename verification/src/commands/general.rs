use vstd::prelude::*;

use crate::utils::text::decimal_string;

verus! {

/// The count of boops that the boop command's button has received.
pub struct BoopCounter {
    count: i32,
}

impl View for BoopCounter {
    type V = int;

    closed spec fn view(&self) -> int {
        self.count as int
    }
}

impl BoopCounter {
    /// A counter at zero, as the boop command starts.
    pub fn new() -> (c: BoopCounter)
        ensures
            c@ == 0,
    {
        BoopCounter { count: 0 }
    }

    /// The boops counted so far.
    pub fn count(&self) -> (n: i32)
        ensures
            n == self@,
    {
        self.count
    }

    /// Counts one more boop and gives the text that the message then shows.
    pub fn press(&mut self) -> (text: String)
        requires
            0 <= old(self)@ < i32::MAX,
        ensures
            final(self)@ == old(self)@ + 1,
            text@ == "Boop count: "@ + crate::utils::text::decimal(final(self)@ as nat),
    {
        self.count = self.count + 1;
        let mut text = "Boop count: ".to_owned();
        text.append(decimal_string(self.count as u64).as_str());
        text
    }
}

/// How Discord sets the video quality of a voice channel.
#[derive(Clone, Copy, Debug, PartialEq, Eq)]
pub enum VideoQuality {
    Auto,
    Full,
    Unknown,
}

/// The name of a video quality mode, as its `Debug` form writes it.
pub open spec fn quality_name(q: VideoQuality) -> Seq<char> {
    match q {
        VideoQuality::Auto => "Auto"@,
        VideoQuality::Full => "Full"@,
        VideoQuality::Unknown => "Unknown"@,
    }
}

fn quality_str(q: VideoQuality) -> (s: &'static str)
    ensures
        s@ == quality_name(q),
{
    match q {
        VideoQuality::Auto => "Auto",
        VideoQuality::Full => "Full",
        VideoQuality::Unknown => "Unknown",
    }
}

/// A number that may be missing, written in decimal, zero where it is
/// missing.
pub open spec fn decimal_or_zero(n: Option<u64>) -> Seq<char> {
    match n {
        Some(x) => crate::utils::text::decimal(x as nat),
        None => crate::utils::text::decimal(0),
    }
}

/// The facts about a voice channel that the voiceinfo command answers with.
pub open spec fn voice_info(
    name: Seq<char>,
    bitrate: Option<u64>,
    user_limit: Option<u64>,
    rtc_region: Option<Seq<char>>,
    video_quality: Option<VideoQuality>,
) -> Seq<char> {
    "**Name**: "@ + name + "\n**Bitrate**: "@ + decimal_or_zero(bitrate) + "\n**User limit**: "@
        + decimal_or_zero(user_limit) + "\n**RTC region**: "@ + match rtc_region {
        Some(r) => r,
        None => Seq::empty(),
    } + "\n**Video quality mode**: "@ + quality_name(
        match video_quality {
            Some(q) => q,
            None => VideoQuality::Unknown,
        },
    )
}

/// The answer of the voiceinfo command: the channel's name, bitrate, user
/// limit, RTC region and video quality mode, a missing number as zero, a
/// missing region as empty and a missing mode as unknown.
pub fn voice_info_text(
    name: &str,
    bitrate: Option<u64>,
    user_limit: Option<u64>,
    rtc_region: Option<String>,
    video_quality: Option<VideoQuality>,
) -> (s: String)
    ensures
        s@ == voice_info(
            name@,
            bitrate,
            user_limit,
            match rtc_region {
                Some(r) => Some(r@),
                None => None,
            },
            video_quality,
        ),
{
    let mut s = "**Name**: ".to_owned();
    s.append(name);
    s.append("\n**Bitrate**: ");
    let b = match bitrate {
        Some(x) => x,
        None => 0,
    };
    s.append(decimal_string(b).as_str());
    s.append("\n**User limit**: ");
    let u = match user_limit {
        Some(x) => x,
        None => 0,
    };
    s.append(decimal_string(u).as_str());
    s.append("\n**RTC region**: ");
    match &rtc_region {
        Some(r) => s.append(r.as_str()),
        None => {},
    }
    s.append("\n**Video quality mode**: ");
    let q = match video_quality {
        Some(q) => q,
        None => VideoQuality::Unknown,
    };
    s.append(quality_str(q));
    proof {
        let region: Option<Seq<char>> = match rtc_region {
            Some(r) => Some(r@),
            None => None,
        };
        assert(s@ =~= voice_info(name@, bitrate, user_limit, region, video_quality));
    }
    s
}

/// The reply command's greeting to the user named `user_name`.
pub fn reply_text(user_name: &str) -> (s: String)
    ensures
        s@ == "Hello "@ + user_name@ + "!"@,
{
    let mut s = "Hello ".to_owned();
    s.append(user_name);
    s.append("!");
    s
}

/// The bonk command's message for the user with id `user_id`, who is
/// mentioned as Discord writes a user mention: `<@` and the id.
pub fn bonk_text(user_id: u64) -> (s: String)
    ensures
        s@ == "Bonked "@ + "<@"@ + crate::utils::text::decimal(user_id as nat) + ">"@ + " with THE mallet"@,
{
    let mut s = "Bonked ".to_owned();
    s.append("<@");
    s.append(decimal_string(user_id).as_str());
    s.append(">");
    s.append(" with THE mallet");
    s
}

/// The pin command's reply after pinning the message with id `msg_id`.
pub fn pinned_text(msg_id: u64) -> (s: String)
    ensures
        s@ == "Pinned "@ + crate::utils::text::decimal(msg_id as nat) + "!"@,
{
    let mut s = "Pinned ".to_owned();
    s.append(decimal_string(msg_id).as_str());
    s.append("!");
    s
}

/// The name command's reply after renaming the member shown as
/// `display_name` to `name`.
pub fn renamed_text(display_name: &str, name: &str) -> (s: String)
    ensures
        s@ == "Renamed "@ + display_name@ + " to "@ + name@ + "!"@,
{
    let mut s = "Renamed ".to_owned();
    s.append(display_name);
    s.append(" to ");
    s.append(name);
    s.append("!");
    s
}


/// The one user who may not run the bot's commands.
pub const BLOCKED_USER: u64 = 123456789;

/// Whether the user with id `author` may run commands: everyone may but the
/// blocked user.
pub fn command_allowed(author: u64) -> (b: bool)
    ensures
        b == (author != BLOCKED_USER),
{
    author != BLOCKED_USER
}

} // verus!
