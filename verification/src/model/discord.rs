//! What the bot keeps of Discord's users, members and onboarding settings.
use vstd::prelude::*;
use crate::text;

verus! {

/// Whether a server's onboarding is enabled.
#[derive(Debug, Clone, Copy)]
pub struct CachedOnboarding {
    pub enabled: bool,
}

/// A Discord user, as far as the bot reads it: `avatar` is the hash of
/// the avatar image, as text.
#[derive(Debug)]
pub struct CachedUser {
    pub id: u64,
    pub name: String,
    pub global_name: Option<String>,
    pub avatar: Option<String>,
}

/// The name shown for a user: the global name where it has one, else the username.
pub open spec fn user_display_name(u: CachedUser) -> Seq<char> {
    match u.global_name {
        Some(g) => g@,
        None => u.name@,
    }
}

/// Where Discord serves the avatar `hash` of the user `id`.
pub open spec fn avatar_link(id: u64, hash: Seq<char>) -> Seq<char> {
    "https://cdn.discordapp.com/avatars/"@ + text::decimal(id as nat) + "/"@ + hash + ".webp"@
}

impl CachedUser {
    /// The name shown for this user: the global name where it has one, else the username.
    pub fn display_name(&self) -> (r: &str)
        ensures
            r@ == user_display_name(*self),
    {
        match &self.global_name {
            Some(g) => g.as_str(),
            None => self.name.as_str(),
        }
    }

    /// Where Discord serves this user's avatar, where they have one.
    pub fn avatar_url(&self) -> (r: Option<String>)
        ensures
            match self.avatar {
                Some(hash) => r matches Some(url) && url@ == avatar_link(self.id, hash@),
                None => r is None,
            },
    {
        match &self.avatar {
            Some(hash) => {
                let mut url = String::from_str("https://cdn.discordapp.com/avatars/");
                url.append(text::decimal_string(self.id).as_str());
                url.append("/");
                url.append(hash.as_str());
                url.append(".webp");
                Some(url)
            },
            None => None,
        }
    }
}

} // verus!
