//! The bot's own commands, and how they are registered with Discord.
use vstd::prelude::*;
use crate::text;

verus! {

/// Where a command is offered: as a slash command, or in the menu of a user
/// or of a message.
#[derive(Debug, Clone, Copy, PartialEq, Eq, Structural)]
pub enum CommandKind {
    Slash,
    User,
    Message,
}

/// What the bot registers of one of its commands.
#[derive(Debug)]
pub struct CommandDefinition {
    pub name: String,
    pub no_dm: bool,
    pub is_user: bool,
    pub is_slash: bool,
    pub is_message: bool,
    pub description: Option<String>,
    pub default_member_permissions: Option<String>,
}

/// The kinds under which a command is registered, in the order user, slash, message.
pub open spec fn registered_kinds(c: CommandDefinition) -> Seq<CommandKind> {
    (if c.is_user {
        seq![CommandKind::User]
    } else {
        Seq::empty()
    }) + (if c.is_slash {
        seq![CommandKind::Slash]
    } else {
        Seq::empty()
    }) + (if c.is_message {
        seq![CommandKind::Message]
    } else {
        Seq::empty()
    })
}

/// The description registered for a command of the kind `kind`: none for a
/// user command, else its own or a stand-in.
pub open spec fn registered_description(c: CommandDefinition, kind: CommandKind) -> Seq<char> {
    match kind {
        CommandKind::User => Seq::empty(),
        _ => match c.description {
            Some(d) => d@,
            None => "there is no description yet, how sad..."@,
        },
    }
}

impl CommandDefinition {
    /// The kinds under which this command is registered, in the order user, slash, message.
    pub fn kinds(&self) -> (r: Vec<CommandKind>)
        ensures
            r@ == registered_kinds(*self),
    {
        let mut r: Vec<CommandKind> = Vec::new();
        if self.is_user {
            r.push(CommandKind::User);
        }
        let ghost a = r@;
        if self.is_slash {
            r.push(CommandKind::Slash);
        }
        let ghost b = r@;
        if self.is_message {
            r.push(CommandKind::Message);
        }
        proof {
            let x: Seq<CommandKind> = if self.is_user { seq![CommandKind::User] } else { Seq::empty() };
            let y: Seq<CommandKind> = if self.is_slash { seq![CommandKind::Slash] } else { Seq::empty() };
            let z: Seq<CommandKind> = if self.is_message { seq![CommandKind::Message] } else { Seq::empty() };
            assert(a =~= x);
            assert(b =~= x + y);
            assert(r@ =~= x + y + z);
        }
        r
    }

    /// The description registered for this command under the kind `kind`.
    pub fn description_for(&self, kind: CommandKind) -> (r: String)
        ensures
            r@ == registered_description(*self, kind),
    {
        match kind {
            CommandKind::User => String::new(),
            _ => match &self.description {
                Some(d) => d.clone(),
                None => String::from_str("there is no description yet, how sad..."),
            },
        }
    }

    /// The permission bits that members need by default, where the command
    /// names them; `Err` where what it names is not a number.
    pub fn permission_bits(&self) -> (r: Result<Option<u64>, ()>)
        ensures
            match self.default_member_permissions {
                Some(p) => match text::parse_bounded(p@, u64::MAX as nat) {
                    Some(n) => r == Ok::<Option<u64>, ()>(Some(n as u64)),
                    None => r is Err,
                },
                None => r == Ok::<Option<u64>, ()>(None),
            },
    {
        match &self.default_member_permissions {
            Some(p) => match text::parse_u64(p.as_str()) {
                Some(n) => Ok(Some(n)),
                None => Err(()),
            },
            None => Ok(None),
        }
    }
}

} // verus!
