//! Blocklist profiles (how aggressive the blocklist is) and the published
//! blocklist each profile selects.

use vstd::prelude::*;
use crate::text::{chars_of, lower, lower_chars, str_eq, string_of, trim, trim_chars};

verus! {

/// How aggressive the domain blocklist is.
#[derive(Clone, Copy, Debug, Eq, PartialEq, Structural)]
pub enum BlocklistProfile {
    Light,
    Normal,
    Pro,
}

/// The display name of a profile.
pub open spec fn profile_name(p: BlocklistProfile) -> Seq<char> {
    match p {
        BlocklistProfile::Light => "Light"@,
        BlocklistProfile::Normal => "Normal"@,
        BlocklistProfile::Pro => "Pro"@,
    }
}

/// The profile a normalized (trimmed, lower-cased) command names.
pub open spec fn profile_of_keyword(k: Seq<char>) -> Option<BlocklistProfile> {
    if k == "light"@ {
        Some(BlocklistProfile::Light)
    } else if k == "normal"@ {
        Some(BlocklistProfile::Normal)
    } else if k == "pro"@ {
        Some(BlocklistProfile::Pro)
    } else {
        None
    }
}

/// The profile a user command names: its keyword, trimmed and in any ASCII case.
pub open spec fn profile_of_command(value: Seq<char>) -> Option<BlocklistProfile> {
    profile_of_keyword(lower(trim(value)))
}

/// The address of the published domain list for a profile.
pub open spec fn profile_list_url(p: BlocklistProfile) -> Seq<char> {
    match p {
        BlocklistProfile::Light => "https://raw.githubusercontent.com/hagezi/dns-blocklists/main/domains/light.txt"@,
        BlocklistProfile::Normal => "https://raw.githubusercontent.com/hagezi/dns-blocklists/main/domains/multi.txt"@,
        BlocklistProfile::Pro => "https://raw.githubusercontent.com/hagezi/dns-blocklists/main/domains/pro.txt"@,
    }
}

impl Default for BlocklistProfile {
    fn default() -> (r: Self)
        ensures
            r == BlocklistProfile::Normal,
    {
        BlocklistProfile::Normal
    }
}

impl BlocklistProfile {
    /// The display name of this profile.
    pub fn as_str(self) -> (r: &'static str)
        ensures
            r@ == profile_name(self),
    {
        match self {
            BlocklistProfile::Light => "Light",
            BlocklistProfile::Normal => "Normal",
            BlocklistProfile::Pro => "Pro",
        }
    }

    /// The profile that a user command names, if any.
    pub fn from_command(value: &str) -> (r: Option<Self>)
        ensures
            r == profile_of_command(value@),
    {
        let chars = chars_of(value);
        let keyword = string_of(lower_chars(trim_chars(chars.as_slice()).as_slice()).as_slice());
        if str_eq(keyword.as_str(), "light") {
            Some(BlocklistProfile::Light)
        } else if str_eq(keyword.as_str(), "normal") {
            Some(BlocklistProfile::Normal)
        } else if str_eq(keyword.as_str(), "pro") {
            Some(BlocklistProfile::Pro)
        } else {
            None
        }
    }
}

/// The address of the published domain list that `profile` selects.
pub fn profile_url(profile: BlocklistProfile) -> (r: &'static str)
    ensures
        r@ == profile_list_url(profile),
{
    match profile {
        BlocklistProfile::Light => "https://raw.githubusercontent.com/hagezi/dns-blocklists/main/domains/light.txt",
        BlocklistProfile::Normal => "https://raw.githubusercontent.com/hagezi/dns-blocklists/main/domains/multi.txt",
        BlocklistProfile::Pro => "https://raw.githubusercontent.com/hagezi/dns-blocklists/main/domains/pro.txt",
    }
}

/// A profile's display name, given as a command, selects that profile again.
pub proof fn lemma_name_selects_profile(p: BlocklistProfile)
    ensures
        profile_of_command(profile_name(p)) == Some(p),
{
    reveal_strlit("Light");
    reveal_strlit("Normal");
    reveal_strlit("Pro");
    reveal_strlit("light");
    reveal_strlit("normal");
    reveal_strlit("pro");
    let n = profile_name(p);
    assert(trim(n) == n) by {
        assert(!crate::text::is_ws(n[0]));
        assert(!crate::text::is_ws(n.last()));
    }
    match p {
        BlocklistProfile::Light => assert(lower(n) =~= "light"@),
        BlocklistProfile::Normal => assert(lower(n) =~= "normal"@),
        BlocklistProfile::Pro => assert(lower(n) =~= "pro"@),
    }
}

} // verus!
