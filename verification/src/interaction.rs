//! How the bot answers an interaction, and the texts its commands answer with.
use vstd::prelude::*;
use crate::text;
use crate::server::logging::{mention, mention_text};
use crate::visual_scripting::document::ServerCommand;

verus! {

/// The message flag that shows a message only to the member who used the command.
pub const EPHEMERAL: u64 = 64;

/// How an interaction is answered: with a message now, or with a promise
/// of one to come.
#[derive(Debug, Clone, Copy, PartialEq, Eq, Structural)]
pub enum ReplyKind {
    Message,
    Deferred,
}

/// The answer to an interaction.
#[derive(Debug)]
pub struct InteractionReply {
    pub kind: ReplyKind,
    pub flags: Option<u64>,
    pub content: Option<String>,
}

/// What one of the bot's own commands answers.
#[derive(Debug)]
pub enum CommandResponse {
    Message { flags: Option<u64>, content: Option<String> },
    Defer,
}

impl CommandResponse {
    /// A message that only the member who used the command sees.
    pub fn ephemeral(content: String) -> (r: CommandResponse)
        ensures
            r matches CommandResponse::Message { flags, content: c } && flags == Some(EPHEMERAL) && c == Some(
                content,
            ),
    {
        CommandResponse::Message { flags: Some(EPHEMERAL), content: Some(content) }
    }
}

/// The answer where a server's custom command could not be read; `error`
/// says why.
pub fn fetch_failed_reply(error: &str) -> (r: InteractionReply)
    ensures
        r.kind == ReplyKind::Message,
        r.flags == Some(EPHEMERAL),
        r.content matches Some(c) && c@ == "<:niko_yawn:1226170445242568755> an unexpected error occurred while fetching the information for this command... oopsie daisy!\n```sh\n"@
            + error@ + "```"@,
{
    let mut c = String::from_str(
        "<:niko_yawn:1226170445242568755> an unexpected error occurred while fetching the information for this command... oopsie daisy!\n```sh\n",
    );
    c.append(error);
    c.append("```");
    InteractionReply { kind: ReplyKind::Message, flags: Some(EPHEMERAL), content: Some(c) }
}

/// The answer to a server's custom command: a promise of the answer where
/// its document is to run (only the member sees it where the command says
/// so), else a note that the command does nothing.
pub fn custom_command_reply(command: &ServerCommand) -> (r: InteractionReply)
    ensures
        if command.document.active && command.document.definition@.len() > 0 {
            &&& r.kind == ReplyKind::Deferred
            &&& r.flags == if command.is_ephemeral {
                Some(EPHEMERAL)
            } else {
                None::<u64>
            }
            &&& r.content is None
        } else {
            &&& r.kind == ReplyKind::Message
            &&& r.flags == Some(EPHEMERAL)
            &&& r.content matches Some(c) && c@
                == "<:niko_yawn:1226170445242568755> this custom command currently does absolutely nothing... go tell a server admin about it!!!"@
        },
{
    if command.document.is_ready_for_stream() {
        InteractionReply {
            kind: ReplyKind::Deferred,
            flags: if command.is_ephemeral {
                Some(EPHEMERAL)
            } else {
                None
            },
            content: None,
        }
    } else {
        InteractionReply {
            kind: ReplyKind::Message,
            flags: Some(EPHEMERAL),
            content: Some(
                String::from_str(
                    "<:niko_yawn:1226170445242568755> this custom command currently does absolutely nothing... go tell a server admin about it!!!",
                ),
            ),
        }
    }
}

/// The answer to one of the bot's own commands, from what the command answered.
pub fn command_reply(response: &CommandResponse) -> (r: InteractionReply)
    ensures
        match response {
            CommandResponse::Message { flags, content } => r.kind == ReplyKind::Message && r.flags == *flags
                && text::opt_view(r.content) == text::opt_view(*content),
            CommandResponse::Defer => r.kind == ReplyKind::Deferred && r.flags == Some(EPHEMERAL) && r.content is None,
        },
{
    match response {
        CommandResponse::Message { flags, content } => InteractionReply {
            kind: ReplyKind::Message,
            flags: *flags,
            content: text::clone_opt(content),
        },
        CommandResponse::Defer => InteractionReply { kind: ReplyKind::Deferred, flags: Some(EPHEMERAL), content: None },
    }
}

/// The answer to a command that the bot does not know.
pub fn unknown_command_reply() -> (r: InteractionReply)
    ensures
        r.kind == ReplyKind::Message,
        r.flags is None,
        r.content matches Some(c) && c@
            == "<:niko_look_left:1227198516590411826> erm... this command hasn't been implemented yet..."@,
{
    InteractionReply {
        kind: ReplyKind::Message,
        flags: None,
        content: Some(
            String::from_str("<:niko_look_left:1227198516590411826> erm... this command hasn't been implemented yet..."),
        ),
    }
}

/// What a member is told where a command's deferred work failed:
/// `from_discord` where Discord refused a request, `problem` the error.
pub fn defer_failure_text(from_discord: bool, problem: &str) -> (r: String)
    ensures
        r@ == "<:niko_look_left:1227198516590411826> something unexpected happened"@ + (if from_discord {
            " while communicating with discord..."@
        } else {
            ", not sure what exactly though!"@
        }) + "\n```diff\n- "@ + problem@ + "```"@,
{
    let mut r = String::from_str("<:niko_look_left:1227198516590411826> something unexpected happened");
    if from_discord {
        r.append(" while communicating with discord...");
    } else {
        r.append(", not sure what exactly though!");
    }
    r.append("\n```diff\n- ");
    r.append(problem);
    r.append("```");
    r
}

/// What a member who is not yet set up is told when they sync in the
/// server `guild_name`, `guild_id`.
pub fn sign_up_text(guild_name: &str, guild_id: u64) -> (r: String)
    ensures
        r@ == "# <:waving_hand:1225409285203431565> <:mellow_squircled:1225413361777508393>  mellow says konnichiwa (hello)!\nWelcome to *"@
            + guild_name@
            + "*, before you can start syncing here, you need to get set up with mellow!\nWhenever you're ready, tap [here](<https://discord.com/api/oauth2/authorize?client_id=1068554282481229885&redirect_uri=https%3A%2F%2Fapi-new.hakumi.cafe%2Fv1%2Fconnection_callback%2F0&response_type=code&scope=identify&state=mellow_new."@
            + text::decimal(guild_id as nat)
            + ">) to proceed, it won't take long!\n\n*fancy knowing what mellow is? read up on it [here](<https://hakumi.cafe/docs/mellow>)!*"@,
{
    let mut r = String::from_str(
        "# <:waving_hand:1225409285203431565> <:mellow_squircled:1225413361777508393>  mellow says konnichiwa (hello)!\nWelcome to *",
    );
    r.append(guild_name);
    r.append(
        "*, before you can start syncing here, you need to get set up with mellow!\nWhenever you're ready, tap [here](<https://discord.com/api/oauth2/authorize?client_id=1068554282481229885&redirect_uri=https%3A%2F%2Fapi-new.hakumi.cafe%2Fv1%2Fconnection_callback%2F0&response_type=code&scope=identify&state=mellow_new.",
    );
    r.append(text::decimal_string(guild_id).as_str());
    r.append(
        ">) to proceed, it won't take long!\n\n*fancy knowing what mellow is? read up on it [here](<https://hakumi.cafe/docs/mellow>)!*",
    );
    r
}

/// What a forced sync answers where the server is not set up.
pub fn server_not_found_text() -> (r: String)
    ensures
        r@
            == "## <:niko_look_left:1227198516590411826>  Cannot sync member\nThis server hasn't been set up with mellow yet, if you're an administrator, execute the /setup command."@,
{
    String::from_str(
        "## <:niko_look_left:1227198516590411826>  Cannot sync member\nThis server hasn't been set up with mellow yet, if you're an administrator, execute the /setup command.",
    )
}

/// What a forced sync answers where the server `guild_id` does not allow them.
pub fn forceful_disabled_text(guild_id: u64) -> (r: String)
    ensures
        r@
            == "## <:niko_look_left:1227198516590411826>  Cannot sync member\nThis server has forceful syncing disabled, if you're a server manager...you may enable it [here](<https://hakumi.cafe/mellow/server/"@
            + text::decimal(guild_id as nat) + "/settings/syncing>)."@,
{
    let mut r = String::from_str(
        "## <:niko_look_left:1227198516590411826>  Cannot sync member\nThis server has forceful syncing disabled, if you're a server manager...you may enable it [here](<https://hakumi.cafe/mellow/server/",
    );
    r.append(text::decimal_string(guild_id).as_str());
    r.append("/settings/syncing>).");
    r
}

/// What a forced sync answers where the member `member_id` is not set up.
pub fn not_set_up_text(member_id: u64) -> (r: String)
    ensures
        r@ == "## <:niko_look_left:1227198516590411826>  Cannot sync member\n"@ + mention(member_id)
            + " has not yet been set up with mellow... ┐(￣ヘ￣)┌"@,
{
    let mut r = String::from_str("## <:niko_look_left:1227198516590411826>  Cannot sync member\n");
    r.append(mention_text(member_id).as_str());
    r.append(" has not yet been set up with mellow... ┐(￣ヘ￣)┌");
    r
}

/// What a sync of every member answers: how many were synced, and how many changed.
pub fn sync_all_summary(total_synced: u64, total_changed: u64) -> (r: String)
    ensures
        r@ == "## Successfully synced "@ + text::decimal(total_synced as nat) + " profiles\n"@ + text::decimal(
            total_changed as nat,
        ) + " profile(s) in total were updated."@,
{
    let mut r = String::from_str("## Successfully synced ");
    r.append(text::decimal_string(total_synced).as_str());
    r.append(" profiles\n");
    r.append(text::decimal_string(total_changed).as_str());
    r.append(" profile(s) in total were updated.");
    r
}

/// What `/setup` answers in the server `guild_id` where it is already connected.
pub fn already_connected_text(guild_id: u64) -> (r: String)
    ensures
        r@ == "## Server already connected\nThis server is already connected to mellow, view it [here](https://hakumi.cafe/mellow/server/"@ + text::decimal(guild_id as nat) + ")."@,
{
    let mut r = String::from_str("## Server already connected\nThis server is already connected to mellow, view it [here](https://hakumi.cafe/mellow/server/");
    r.append(text::decimal_string(guild_id).as_str());
    r.append(").");
    r
}

/// What `/setup` answers once the server `guild_id` is connected.
pub fn server_connected_text(guild_id: u64) -> (r: String)
    ensures
        r@ == "## Server connected\nThis server is now connected to mellow!\nConfigure it online [here](https://hakumi.cafe/mellow/server/"@ + text::decimal(guild_id as nat) + ").\n\n*If you haven't already, to ensure that I can do what I do best, you may need to [position](https://support.discord.com/hc/en-us/articles/214836687-Role-Management-101#:~:text=drag%20to%20re-arrange%20roles) one of my roles at the very top of your server.*"@,
{
    let mut r = String::from_str("## Server connected\nThis server is now connected to mellow!\nConfigure it online [here](https://hakumi.cafe/mellow/server/");
    r.append(text::decimal_string(guild_id).as_str());
    r.append(").\n\n*If you haven't already, to ensure that I can do what I do best, you may need to [position](https://support.discord.com/hc/en-us/articles/214836687-Role-Management-101#:~:text=drag%20to%20re-arrange%20roles) one of my roles at the very top of your server.*");
    r
}

/// What `/setup` answers in the server `guild_id` where the member has no HAKUMI account.
pub fn account_not_connected_text(guild_id: u64) -> (r: String)
    ensures
        r@ == "## Account not connected\nIt appears I do not recognise your wondrous face, you must be new!\n* Do you have a HAKUMI Account? If so, follow these [instructions](https://hakumi.cafe/docs/platform/account/connections), and then execute this command again.\n* If you're completely new, never heard of a HAKUMI, or even a measily marshmellow, simply [tap here](https://discord.com/api/oauth2/authorize?client_id=1068554282481229885&redirect_uri=https%3A%2F%2Fapi.hakumi.cafe%2Fv0%2Fauth%2Fcallback%2Fmellow&response_type=code&scope=identify&state=setup_"@ + text::decimal(guild_id as nat) + ")!"@,
{
    let mut r = String::from_str("## Account not connected\nIt appears I do not recognise your wondrous face, you must be new!\n* Do you have a HAKUMI Account? If so, follow these [instructions](https://hakumi.cafe/docs/platform/account/connections), and then execute this command again.\n* If you're completely new, never heard of a HAKUMI, or even a measily marshmellow, simply [tap here](https://discord.com/api/oauth2/authorize?client_id=1068554282481229885&redirect_uri=https%3A%2F%2Fapi.hakumi.cafe%2Fv0%2Fauth%2Fcallback%2Fmellow&response_type=code&scope=identify&state=setup_");
    r.append(text::decimal_string(guild_id).as_str());
    r.append(")!");
    r
}

/// Where Discord serves the icon `hash` of the server `guild_id`.
pub fn guild_icon_url(guild_id: u64, hash: &str) -> (r: String)
    ensures
        r@ == "https://cdn.discordapp.com/icons/"@ + text::decimal(guild_id as nat) + "/"@ + hash@ + ".webp"@,
{
    let mut r = String::from_str("https://cdn.discordapp.com/icons/");
    r.append(text::decimal_string(guild_id).as_str());
    r.append("/");
    r.append(hash);
    r.append(".webp");
    r
}

/// Where Discord serves the splash image `hash` of the server `guild_id`, at the size shown on the website.
pub fn guild_splash_url(guild_id: u64, hash: &str) -> (r: String)
    ensures
        r@ == "https://cdn.discordapp.com/splashes/"@ + text::decimal(guild_id as nat) + "/"@ + hash@ + ".webp?size=1032"@,
{
    let mut r = String::from_str("https://cdn.discordapp.com/splashes/");
    r.append(text::decimal_string(guild_id).as_str());
    r.append("/");
    r.append(hash);
    r.append(".webp?size=1032");
    r
}

} // verus!
