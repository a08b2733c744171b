//! Slash commands: what is registered with the platform, and which
//! command an interaction is for.
use crate::text::str_eq;
use vstd::prelude::*;

verus! {

/// The type of a command that is typed into the chat.
pub const CHAT_INPUT: u8 = 1;

/// The type of an interaction that invokes a command.
pub const APPLICATION_COMMAND: u8 = 2;

/// The type of a response that answers an interaction with a message.
pub const CHANNEL_MESSAGE_WITH_SOURCE: u8 = 4;

/// The definition of a slash command, as it is registered.
#[derive(Debug)]
pub struct SlashCommand {
    pub name: String,
    pub command_type: u8,
    pub description: String,
}

/// The slash commands of the service.
#[derive(Clone, Copy, Debug, PartialEq, Eq, Structural)]
pub enum SlashKind {
    Ahoy,
    Blp,
    Png,
    Rembg,
    Icon,
}

impl SlashKind {
    /// The name of the command.
    pub open spec fn name_text(self) -> Seq<char> {
        match self {
            SlashKind::Ahoy => "ahoy"@,
            SlashKind::Blp => "blp"@,
            SlashKind::Png => "png"@,
            SlashKind::Rembg => "rembg"@,
            SlashKind::Icon => "icon"@,
        }
    }

    /// What the platform shows as the description of the command.
    pub open spec fn description_text(self) -> Seq<char> {
        match self {
            SlashKind::Ahoy => "A pirate greeting"@,
            SlashKind::Blp => "Information about BLP image conversion"@,
            SlashKind::Png => "Information about PNG image conversion"@,
            SlashKind::Rembg => "Information about background removal"@,
            SlashKind::Icon => "Information about icon conversion"@,
        }
    }

    /// The command with the given name.
    pub open spec fn named(name: Seq<char>) -> Option<SlashKind> {
        if name == "ahoy"@ {
            Some(SlashKind::Ahoy)
        } else if name == "blp"@ {
            Some(SlashKind::Blp)
        } else if name == "png"@ {
            Some(SlashKind::Png)
        } else if name == "rembg"@ {
            Some(SlashKind::Rembg)
        } else if name == "icon"@ {
            Some(SlashKind::Icon)
        } else {
            None
        }
    }

    /// The command with the given name.
    pub fn from_name(name: &str) -> (r: Option<SlashKind>)
        ensures
            r == SlashKind::named(name@),
    {
        if str_eq(name, "ahoy") {
            Some(SlashKind::Ahoy)
        } else if str_eq(name, "blp") {
            Some(SlashKind::Blp)
        } else if str_eq(name, "png") {
            Some(SlashKind::Png)
        } else if str_eq(name, "rembg") {
            Some(SlashKind::Rembg)
        } else if str_eq(name, "icon") {
            Some(SlashKind::Icon)
        } else {
            None
        }
    }

    /// The definition of the command.
    pub fn definition(&self) -> (r: SlashCommand)
        ensures
            r.name@ == self.name_text(),
            r.command_type == CHAT_INPUT,
            r.description@ == self.description_text(),
    {
        let (name, description) = match self {
            SlashKind::Ahoy => ("ahoy", "A pirate greeting"),
            SlashKind::Blp => ("blp", "Information about BLP image conversion"),
            SlashKind::Png => ("png", "Information about PNG image conversion"),
            SlashKind::Rembg => ("rembg", "Information about background removal"),
            SlashKind::Icon => ("icon", "Information about icon conversion"),
        };
        SlashCommand {
            name: String::from_str(name),
            command_type: CHAT_INPUT,
            description: String::from_str(description),
        }
    }
}

/// A slash command of the service.
pub trait Command {
    /// Which command this is.
    spec fn kind() -> SlashKind;

    /// The definition under which the command is registered.
    fn definition() -> (r: SlashCommand)
        ensures
            r.name@ == Self::kind().name_text(),
            r.command_type == CHAT_INPUT,
            r.description@ == Self::kind().description_text(),
    ;
}

/// `/ahoy`: a greeting.
pub struct Ahoy;

/// `/blp`: how to convert to BLP.
pub struct Blp;

/// `/png`: how to convert to PNG.
pub struct Png;

/// `/rembg`: how to remove a background.
pub struct Rembg;

/// `/icon`: how to make icons.
pub struct Icon;

impl Command for Ahoy {
    open spec fn kind() -> SlashKind {
        SlashKind::Ahoy
    }

    fn definition() -> (r: SlashCommand) {
        SlashKind::Ahoy.definition()
    }
}

impl Command for Blp {
    open spec fn kind() -> SlashKind {
        SlashKind::Blp
    }

    fn definition() -> (r: SlashCommand) {
        SlashKind::Blp.definition()
    }
}

impl Command for Png {
    open spec fn kind() -> SlashKind {
        SlashKind::Png
    }

    fn definition() -> (r: SlashCommand) {
        SlashKind::Png.definition()
    }
}

impl Command for Rembg {
    open spec fn kind() -> SlashKind {
        SlashKind::Rembg
    }

    fn definition() -> (r: SlashCommand) {
        SlashKind::Rembg.definition()
    }
}

impl Command for Icon {
    open spec fn kind() -> SlashKind {
        SlashKind::Icon
    }

    fn definition() -> (r: SlashCommand) {
        SlashKind::Icon.definition()
    }
}

/// The greeting that `/ahoy` answers with.
pub const AHOY_TEXT: &'static str = "Aye aye, Captain! Raft's afloat!";

/// The commands in the order in which they are registered.
pub open spec fn registered() -> Seq<SlashKind> {
    seq![SlashKind::Ahoy, SlashKind::Blp, SlashKind::Png, SlashKind::Rembg, SlashKind::Icon]
}

/// The definitions of all commands, for registration with the platform.
pub fn all_commands() -> (r: Vec<SlashCommand>)
    ensures
        r.len() == registered().len(),
        forall|k: int|
            0 <= k < r.len() ==> {
                &&& (#[trigger] r[k]).name@ == registered()[k].name_text()
                &&& r[k].command_type == CHAT_INPUT
                &&& r[k].description@ == registered()[k].description_text()
            },
{
    let mut out: Vec<SlashCommand> = Vec::new();
    out.push(Ahoy::definition());
    out.push(Blp::definition());
    out.push(Png::definition());
    out.push(Rembg::definition());
    out.push(Icon::definition());
    out
}

/// What an interaction says of the command it invokes.
#[derive(Debug)]
pub struct InteractionData {
    pub name: String,
}

/// An interaction as the gateway delivers it.
#[derive(Debug)]
pub struct Interaction {
    pub id: String,
    pub interaction_type: u8,
    pub data: Option<InteractionData>,
    pub token: String,
    /// The channel in which the command was typed.
    pub channel_id: Option<String>,
}

/// The message that answers an interaction.
#[derive(Debug)]
pub struct InteractionResponseData {
    pub content: String,
}

/// The answer to an interaction.
#[derive(Debug)]
pub struct InteractionResponse {
    pub response_type: u8,
    pub data: Option<InteractionResponseData>,
}

impl InteractionResponse {
    /// The answer that posts `content` as a message.
    pub fn message(content: String) -> (r: InteractionResponse)
        ensures
            r.response_type == CHANNEL_MESSAGE_WITH_SOURCE,
            r.data matches Some(d) && d.content == content,
    {
        InteractionResponse {
            response_type: CHANNEL_MESSAGE_WITH_SOURCE,
            data: Some(InteractionResponseData { content }),
        }
    }
}

/// The command that an interaction is for: none unless the interaction
/// invokes a command and names one of the service.
pub open spec fn command_for(interaction: &Interaction) -> Option<SlashKind> {
    if interaction.interaction_type != APPLICATION_COMMAND {
        None
    } else {
        match interaction.data {
            Some(d) => SlashKind::named(d.name@),
            None => None,
        }
    }
}

/// Routes an interaction to the command it is for. Anything else is
/// passed over.
pub fn route_interaction(interaction: &Interaction) -> (r: Option<SlashKind>)
    ensures
        r == command_for(interaction),
{
    if interaction.interaction_type != APPLICATION_COMMAND {
        return None;
    }
    match &interaction.data {
        Some(d) => SlashKind::from_name(d.name.as_str()),
        None => None,
    }
}

} // verus!
