use vstd::prelude::*;
use vstd::string::StrSliceExecFns;
use vstd::string::StringExecFns;
use crate::db::WelcomeConfig;
use crate::utils::{
    spec_ends_with, spec_starts_with, spec_trimmed, spec_u64_digits, starts_with_str, trim_str,
    u64_to_string,
};

verus! {

/// Whether an inbound message is handled at all: it must open with
/// the command prefix, not come from an automated account, and not be
/// flagged malicious.
pub open spec fn spec_should_handle(
    content: Seq<char>,
    author_is_bot: bool,
    flagged_malicious: bool,
) -> bool {
    content.len() > 0 && content[0] == '.' && !author_is_bot && !flagged_malicious
}

/// Decides whether a message goes on to classification.
pub fn should_handle(content: &str, author_is_bot: bool, flagged_malicious: bool) -> (r: bool)
    ensures
        r == spec_should_handle(content@, author_is_bot, flagged_malicious),
{
    if author_is_bot || flagged_malicious {
        return false;
    }
    let n: usize = content.unicode_len();
    if n == 0 {
        return false;
    }
    content.get_char(0) == '.'
}

/// The text handed to the classifier: the message with the one-char
/// command prefix removed and the white space around it stripped.
pub fn command_text(content: &str) -> (r: String)
    requires
        content@.len() > 0,
    ensures
        r@ == spec_trimmed(content@.subrange(1, content@.len() as int)),
{
    let n: usize = content.unicode_len();
    let rest = content.substring_char(1, n);
    trim_str(rest)
}

/// Which way a classified intent toggles a feature.
#[derive(Debug, Clone, Copy, PartialEq, Eq, Structural)]
pub enum ToggleDirection {
    Enable,
    Disable,
}

/// Routes the top intent name on its suffix: a fixed enable suffix
/// turns the feature on, a fixed disable suffix turns it off, and any
/// other name is ignored.
pub fn route_intent(intent: &str) -> (r: Option<ToggleDirection>)
    ensures
        spec_ends_with(intent@, "_enable"@) ==> r == Some(ToggleDirection::Enable),
        !spec_ends_with(intent@, "_enable"@) && spec_ends_with(intent@, "_disable"@) ==> r == Some(
            ToggleDirection::Disable,
        ),
        !spec_ends_with(intent@, "_enable"@) && !spec_ends_with(intent@, "_disable"@) ==> r
            is None,
{
    if crate::utils::ends_with_str(intent, "_enable") {
        Some(ToggleDirection::Enable)
    } else if crate::utils::ends_with_str(intent, "_disable") {
        Some(ToggleDirection::Disable)
    } else {
        None
    }
}

/// The classifier's top-ranked intent name: the first of the ordered
/// candidates, or nothing when the classifier returned none.
pub fn top_intent(intent_names: &Vec<String>) -> (r: Option<String>)
    ensures
        intent_names@.len() == 0 ==> r is None,
        intent_names@.len() > 0 ==> (r matches Some(s) && s@ == intent_names.deep_view()[0]),
{
    if intent_names.len() == 0 {
        None
    } else {
        Some(intent_names[0].clone())
    }
}

/// The hex digest that sha256 renders, a function of the text alone.
pub uninterp spec fn sha256_hex_of(s: Seq<char>) -> Seq<char>;

/// Relies on sha256::digest: the hex form of the SHA-256 digest of
/// the text's bytes, depending on the text alone.
#[verifier::external_body]
fn digest_hex(s: &str) -> (r: String)
    ensures
        r@ == sha256_hex_of(s@),
{
    sha256::digest(s)
}

/// The file name a rendered welcome image is parked under: the digest
/// of the member and guild IDs written one after the other, as a PNG.
pub open spec fn spec_welcome_file_name(member_id: u64, guild_id: u64) -> Seq<char> {
    sha256_hex_of(spec_u64_digits(member_id as nat) + spec_u64_digits(guild_id as nat)) + ".png"@
}

/// Renders the file name for one member's welcome image.
pub fn welcome_file_name(member_id: u64, guild_id: u64) -> (r: String)
    ensures
        r@ == spec_welcome_file_name(member_id, guild_id),
{
    let mut key = u64_to_string(member_id);
    let guild_digits = u64_to_string(guild_id);
    key.append(guild_digits.as_str());
    let mut name = digest_hex(key.as_str());
    name.append(".png");
    name
}

/// What a member-join event asks the uploader to do: send the file
/// under this name to this channel.
pub struct UploadPlan {
    pub channel_id: u64,
    pub file_name: String,
}

/// Turns the stored welcome settings into an upload plan. A guild
/// without a welcome record gets no upload and no error.
pub fn member_join_plan(welcome: &Option<WelcomeConfig>, member_id: u64, guild_id: u64) -> (r:
    Option<UploadPlan>)
    ensures
        welcome is None ==> r is None,
        welcome matches Some(c) ==> (r matches Some(p) && p.channel_id == c.channel_id
            && p.file_name@ == spec_welcome_file_name(member_id, guild_id)),
{
    match welcome {
        Some(c) => Some(
            UploadPlan {
                channel_id: c.channel_id,
                file_name: welcome_file_name(member_id, guild_id),
            },
        ),
        None => None,
    }
}

/// What a developer debug message asks for.
#[derive(Debug, Clone, Copy, PartialEq, Eq, Structural)]
pub enum DebugCommand {
    /// Replay the welcome event for the sender.
    Welcome,
    /// A debug line that names no known command.
    Invalid,
}

/// Reads a developer debug line: the debug marker, then the command.
/// A message without the marker is no debug line at all.
pub fn parse_debug_command(content: &str) -> (r: Option<DebugCommand>)
    ensures
        !spec_starts_with(spec_trimmed(content@), "?//d "@) ==> r is None,
        spec_starts_with(spec_trimmed(content@), "?//d "@) ==> r == Some(
            if spec_trimmed(
                spec_trimmed(content@).subrange(
                    "?//d "@.len() as int,
                    spec_trimmed(content@).len() as int,
                ),
            ) == "welcome"@ {
                DebugCommand::Welcome
            } else {
                DebugCommand::Invalid
            },
        ),
{
    let t = trim_str(content);
    if !starts_with_str(t.as_str(), "?//d ") {
        return None;
    }
    let n: usize = t.as_str().unicode_len();
    let m: usize = "?//d ".unicode_len();
    let rest = t.as_str().substring_char(m, n);
    let comm = trim_str(rest);
    if comm == "welcome".to_owned() {
        Some(DebugCommand::Welcome)
    } else {
        Some(DebugCommand::Invalid)
    }
}

} // verus!
