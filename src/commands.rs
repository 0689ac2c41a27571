//! The typed inputs of the bot's own commands: each command's identity,
//! its declared inputs, and decoding an invocation into the typed record.
use vstd::prelude::*;

use crate::command::{CommandKey, CommandKind};
use crate::dispatch::{contents_and_flags, CommandResponse};
use crate::options::{
    boolean_input, declare, fits, integer_input, need_integer, need_string, reports_input,
    string_input, take_boolean, take_integer, take_string, CommandOption, DecodeError, OptionKind,
    OptionSpec,
};

verus! {

/// Inputs of the command that opens a readiness poll before a listening party.
#[derive(Debug)]
pub struct ReadyPoll {
    pub count_emote: Option<String>,
    pub go_emote: Option<String>,
}

impl ReadyPoll {
    /// The command's identity.
    pub fn key() -> (k: CommandKey)
        ensures
            k@ == ("ready_poll"@, CommandKind::ChatInput),
    {
        CommandKey::new("ready_poll", CommandKind::ChatInput)
    }

    /// The command's description, as registered with the platform.
    pub fn description() -> (s: &'static str)
        ensures
            s@ == "Poll to start a listening party"@,
    {
        "Poll to start a listening party"
    }

    /// The declared inputs, in order.
    pub fn options() -> (r: Vec<OptionSpec>)
        ensures
            r@.len() == 2,
            r@[0].name@ == "count_emote"@ && r@[0].description@ == "Count emote"@ && r@[0].kind == OptionKind::String && !r@[0].required && !r@[0].autocomplete,
            r@[1].name@ == "go_emote"@ && r@[1].description@ == "Emote Go"@ && r@[1].kind == OptionKind::String && !r@[1].required && !r@[1].autocomplete,
    {
        let mut r: Vec<OptionSpec> = Vec::new();
        r.push(declare("count_emote", "Count emote", OptionKind::String, false, false));
        r.push(declare("go_emote", "Emote Go", OptionKind::String, false, false));
        r
    }

    /// Decodes an invocation's inputs; refused at the first declared input
    /// that does not fit.
    pub fn decode(provided: &Vec<CommandOption>) -> (r: Result<ReadyPoll, DecodeError>)
        ensures
            r is Ok <==> (fits(provided@, "count_emote"@, OptionKind::String, false) && fits(provided@, "go_emote"@, OptionKind::String, false)),
            match r {
                Ok(c) => c.count_emote == string_input(provided@, "count_emote"@) && c.go_emote == string_input(provided@, "go_emote"@),
                Err(e) => (!fits(provided@, "count_emote"@, OptionKind::String, false) && reports_input(e, provided@, "count_emote"@)) || (fits(provided@, "count_emote"@, OptionKind::String, false) && !fits(provided@, "go_emote"@, OptionKind::String, false) && reports_input(e, provided@, "go_emote"@)),
            },
    {
        let count_emote = match take_string(provided, "count_emote", false) {
            Ok(v) => v,
            Err(e) => return Err(e),
        };
        let go_emote = match take_string(provided, "go_emote", false) {
            Ok(v) => v,
            Err(e) => return Err(e),
        };
        Ok(ReadyPoll { count_emote, go_emote })
    }
}

/// Inputs of the album lookup command.
#[derive(Debug)]
pub struct AlbumLookup {
    pub album: String,
    pub provider: Option<String>,
}

impl AlbumLookup {
    /// The command's identity.
    pub fn key() -> (k: CommandKey)
        ensures
            k@ == ("album"@, CommandKind::ChatInput),
    {
        CommandKey::new("album", CommandKind::ChatInput)
    }

    /// The command's description, as registered with the platform.
    pub fn description() -> (s: &'static str)
        ensures
            s@ == "lookup an album"@,
    {
        "lookup an album"
    }

    /// The declared inputs, in order.
    pub fn options() -> (r: Vec<OptionSpec>)
        ensures
            r@.len() == 2,
            r@[0].name@ == "album"@ && r@[0].description@ == "The album you are looking for (e.g. band - album)"@ && r@[0].kind == OptionKind::String && r@[0].required && !r@[0].autocomplete,
            r@[1].name@ == "provider"@ && r@[1].description@ == "Where to look for album info (defaults to spotify)"@ && r@[1].kind == OptionKind::String && !r@[1].required && !r@[1].autocomplete,
    {
        let mut r: Vec<OptionSpec> = Vec::new();
        r.push(declare("album", "The album you are looking for (e.g. band - album)", OptionKind::String, true, false));
        r.push(declare("provider", "Where to look for album info (defaults to spotify)", OptionKind::String, false, false));
        r
    }

    /// Decodes an invocation's inputs; refused at the first declared input
    /// that does not fit.
    pub fn decode(provided: &Vec<CommandOption>) -> (r: Result<AlbumLookup, DecodeError>)
        ensures
            r is Ok <==> (fits(provided@, "album"@, OptionKind::String, true) && fits(provided@, "provider"@, OptionKind::String, false)),
            match r {
                Ok(c) => Some(c.album) == string_input(provided@, "album"@) && c.provider == string_input(provided@, "provider"@),
                Err(e) => (!fits(provided@, "album"@, OptionKind::String, true) && reports_input(e, provided@, "album"@)) || (fits(provided@, "album"@, OptionKind::String, true) && !fits(provided@, "provider"@, OptionKind::String, false) && reports_input(e, provided@, "provider"@)),
            },
    {
        let album = match need_string(provided, "album") {
            Ok(v) => v,
            Err(e) => return Err(e),
        };
        let provider = match take_string(provided, "provider", false) {
            Ok(v) => v,
            Err(e) => return Err(e),
        };
        Ok(AlbumLookup { album, provider })
    }
}

/// Inputs of the command that turns thread creation for listening parties on or off.
#[derive(Debug)]
pub struct SetCreateThreads {
    pub create_threads: Option<bool>,
}

impl SetCreateThreads {
    /// The command's identity.
    pub fn key() -> (k: CommandKey)
        ensures
            k@ == ("setcreatethreads"@, CommandKind::ChatInput),
    {
        CommandKey::new("setcreatethreads", CommandKind::ChatInput)
    }

    /// The command's description, as registered with the platform.
    pub fn description() -> (s: &'static str)
        ensures
            s@ == "Configure whether LPBot should create threads for LPs"@,
    {
        "Configure whether LPBot should create threads for LPs"
    }

    /// The declared inputs, in order.
    pub fn options() -> (r: Vec<OptionSpec>)
        ensures
            r@.len() == 1,
            r@[0].name@ == "create_threads"@ && r@[0].description@ == "Create threads for LPs"@ && r@[0].kind == OptionKind::Boolean && !r@[0].required && !r@[0].autocomplete,
    {
        let mut r: Vec<OptionSpec> = Vec::new();
        r.push(declare("create_threads", "Create threads for LPs", OptionKind::Boolean, false, false));
        r
    }

    /// Decodes an invocation's inputs; refused at the first declared input
    /// that does not fit.
    pub fn decode(provided: &Vec<CommandOption>) -> (r: Result<SetCreateThreads, DecodeError>)
        ensures
            r is Ok <==> (fits(provided@, "create_threads"@, OptionKind::Boolean, false)),
            match r {
                Ok(c) => c.create_threads == boolean_input(provided@, "create_threads"@),
                Err(e) => (!fits(provided@, "create_threads"@, OptionKind::Boolean, false) && reports_input(e, provided@, "create_threads"@)),
            },
    {
        let create_threads = match take_boolean(provided, "create_threads", false) {
            Ok(v) => v,
            Err(e) => return Err(e),
        };
        Ok(SetCreateThreads { create_threads })
    }
}

/// Inputs of the command that sets or clears the listening-party webhook.
#[derive(Debug)]
pub struct SetWebhook {
    pub webhook: Option<String>,
}

impl SetWebhook {
    /// The command's identity.
    pub fn key() -> (k: CommandKey)
        ensures
            k@ == ("setwebhook"@, CommandKind::ChatInput),
    {
        CommandKey::new("setwebhook", CommandKind::ChatInput)
    }

    /// The command's description, as registered with the platform.
    pub fn description() -> (s: &'static str)
        ensures
            s@ == "Set (or unset) a webhook for LPBot to use when creating listening parties"@,
    {
        "Set (or unset) a webhook for LPBot to use when creating listening parties"
    }

    /// The declared inputs, in order.
    pub fn options() -> (r: Vec<OptionSpec>)
        ensures
            r@.len() == 1,
            r@[0].name@ == "webhook"@ && r@[0].description@ == "The webhook URL (leave empty to remove)"@ && r@[0].kind == OptionKind::String && !r@[0].required && !r@[0].autocomplete,
    {
        let mut r: Vec<OptionSpec> = Vec::new();
        r.push(declare("webhook", "The webhook URL (leave empty to remove)", OptionKind::String, false, false));
        r
    }

    /// Decodes an invocation's inputs; refused at the first declared input
    /// that does not fit.
    pub fn decode(provided: &Vec<CommandOption>) -> (r: Result<SetWebhook, DecodeError>)
        ensures
            r is Ok <==> (fits(provided@, "webhook"@, OptionKind::String, false)),
            match r {
                Ok(c) => c.webhook == string_input(provided@, "webhook"@),
                Err(e) => (!fits(provided@, "webhook"@, OptionKind::String, false) && reports_input(e, provided@, "webhook"@)),
            },
    {
        let webhook = match take_string(provided, "webhook", false) {
            Ok(v) => v,
            Err(e) => return Err(e),
        };
        Ok(SetWebhook { webhook })
    }
}

/// Inputs of the command that sets or clears the pinboard webhook.
#[derive(Debug)]
pub struct SetPinboardWebhook {
    pub webhook: Option<String>,
}

impl SetPinboardWebhook {
    /// The command's identity.
    pub fn key() -> (k: CommandKey)
        ensures
            k@ == ("setpinboardwebhook"@, CommandKind::ChatInput),
    {
        CommandKey::new("setpinboardwebhook", CommandKind::ChatInput)
    }

    /// The command's description, as registered with the platform.
    pub fn description() -> (s: &'static str)
        ensures
            s@ == "Set (or unset) a webhook for the pinboard channel"@,
    {
        "Set (or unset) a webhook for the pinboard channel"
    }

    /// The declared inputs, in order.
    pub fn options() -> (r: Vec<OptionSpec>)
        ensures
            r@.len() == 1,
            r@[0].name@ == "webhook"@ && r@[0].description@ == "The webhook URL for the pinboard channel (leave empty to remove)"@ && r@[0].kind == OptionKind::String && !r@[0].required && !r@[0].autocomplete,
    {
        let mut r: Vec<OptionSpec> = Vec::new();
        r.push(declare("webhook", "The webhook URL for the pinboard channel (leave empty to remove)", OptionKind::String, false, false));
        r
    }

    /// Decodes an invocation's inputs; refused at the first declared input
    /// that does not fit.
    pub fn decode(provided: &Vec<CommandOption>) -> (r: Result<SetPinboardWebhook, DecodeError>)
        ensures
            r is Ok <==> (fits(provided@, "webhook"@, OptionKind::String, false)),
            match r {
                Ok(c) => c.webhook == string_input(provided@, "webhook"@),
                Err(e) => (!fits(provided@, "webhook"@, OptionKind::String, false) && reports_input(e, provided@, "webhook"@)),
            },
    {
        let webhook = match take_string(provided, "webhook", false) {
            Ok(v) => v,
            Err(e) => return Err(e),
        };
        Ok(SetPinboardWebhook { webhook })
    }
}

/// Named integer values, as the contracts see them.
pub open spec fn choices_view(c: Seq<(String, i64)>) -> Seq<(Seq<char>, i64)> {
    c.map_values(|p: (String, i64)| (p.0@, p.1))
}

/// The months by name, numbered from 1.
pub open spec fn month_choices() -> Seq<(Seq<char>, i64)> {
    seq![
        ("January"@, 1i64),
        ("February"@, 2i64),
        ("March"@, 3i64),
        ("April"@, 4i64),
        ("May"@, 5i64),
        ("June"@, 6i64),
        ("July"@, 7i64),
        ("August"@, 8i64),
        ("September"@, 9i64),
        ("October"@, 10i64),
        ("November"@, 11i64),
        ("December"@, 12i64),
    ]
}

/// Inputs of the command that records the invoker's birthday.
#[derive(Debug)]
pub struct SetBday {
    pub day: i64,
    pub month: i64,
    pub year: Option<i64>,
}

impl SetBday {
    /// The command's identity.
    pub fn key() -> (k: CommandKey)
        ensures
            k@ == ("bday"@, CommandKind::ChatInput),
    {
        CommandKey::new("bday", CommandKind::ChatInput)
    }

    /// The command's description, as registered with the platform.
    pub fn description() -> (s: &'static str)
        ensures
            s@ == "Set your birthday"@,
    {
        "Set your birthday"
    }

    /// The declared inputs, in order.
    pub fn options() -> (r: Vec<OptionSpec>)
        ensures
            r@.len() == 3,
            r@[0].name@ == "day"@ && r@[0].description@ == "Day"@ && r@[0].kind == OptionKind::Integer && r@[0].required && !r@[0].autocomplete,
            r@[1].name@ == "month"@ && r@[1].description@ == "Month"@ && r@[1].kind == OptionKind::Integer && r@[1].required && !r@[1].autocomplete,
            r@[2].name@ == "year"@ && r@[2].description@ == "Year"@ && r@[2].kind == OptionKind::Integer && !r@[2].required && !r@[2].autocomplete,
            r@[0].min_int == Some(1i64) && r@[0].max_int == Some(31i64) && r@[0].choices@.len() == 0,
            r@[1].min_int is None && r@[1].max_int is None && choices_view(r@[1].choices@) == month_choices(),
            r@[2].min_int is None && r@[2].max_int is None && r@[2].choices@.len() == 0,
    {
        let mut r: Vec<OptionSpec> = Vec::new();
        r.push(declare("day", "Day", OptionKind::Integer, true, false).with_range(1, 31));
        let month = declare("month", "Month", OptionKind::Integer, true, false)
            .with_choice("January", 1)
            .with_choice("February", 2)
            .with_choice("March", 3)
            .with_choice("April", 4)
            .with_choice("May", 5)
            .with_choice("June", 6)
            .with_choice("July", 7)
            .with_choice("August", 8)
            .with_choice("September", 9)
            .with_choice("October", 10)
            .with_choice("November", 11)
            .with_choice("December", 12);
        proof {
            assert(choices_view(month.choices@) =~= month_choices());
        }
        r.push(month);
        r.push(declare("year", "Year", OptionKind::Integer, false, false));
        r
    }

    /// Decodes an invocation's inputs; refused at the first declared input
    /// that does not fit.
    pub fn decode(provided: &Vec<CommandOption>) -> (r: Result<SetBday, DecodeError>)
        ensures
            r is Ok <==> (fits(provided@, "day"@, OptionKind::Integer, true) && fits(provided@, "month"@, OptionKind::Integer, true) && fits(provided@, "year"@, OptionKind::Integer, false)),
            match r {
                Ok(c) => Some(c.day) == integer_input(provided@, "day"@) && Some(c.month) == integer_input(provided@, "month"@) && c.year == integer_input(provided@, "year"@),
                Err(e) => (!fits(provided@, "day"@, OptionKind::Integer, true) && reports_input(e, provided@, "day"@)) || (fits(provided@, "day"@, OptionKind::Integer, true) && !fits(provided@, "month"@, OptionKind::Integer, true) && reports_input(e, provided@, "month"@)) || (fits(provided@, "day"@, OptionKind::Integer, true) && fits(provided@, "month"@, OptionKind::Integer, true) && !fits(provided@, "year"@, OptionKind::Integer, false) && reports_input(e, provided@, "year"@)),
            },
    {
        let day = match need_integer(provided, "day") {
            Ok(v) => v,
            Err(e) => return Err(e),
        };
        let month = match need_integer(provided, "month") {
            Ok(v) => v,
            Err(e) => return Err(e),
        };
        let year = match take_integer(provided, "year", false) {
            Ok(v) => v,
            Err(e) => return Err(e),
        };
        Ok(SetBday { day, month, year })
    }
}

/// Inputs of the command that adds an automatic reaction.
#[derive(Debug)]
pub struct AddAutoreact {
    pub trigger: String,
    pub emote: String,
}

impl AddAutoreact {
    /// The command's identity.
    pub fn key() -> (k: CommandKey)
        ensures
            k@ == ("add_autoreact"@, CommandKind::ChatInput),
    {
        CommandKey::new("add_autoreact", CommandKind::ChatInput)
    }

    /// The command's description, as registered with the platform.
    pub fn description() -> (s: &'static str)
        ensures
            s@ == "Automatically add reactions to messages"@,
    {
        "Automatically add reactions to messages"
    }

    /// The declared inputs, in order.
    pub fn options() -> (r: Vec<OptionSpec>)
        ensures
            r@.len() == 2,
            r@[0].name@ == "trigger"@ && r@[0].description@ == "The word that will trigger the reaction (case-insensitive)"@ && r@[0].kind == OptionKind::String && r@[0].required && !r@[0].autocomplete,
            r@[1].name@ == "emote"@ && r@[1].description@ == "The emote to react with"@ && r@[1].kind == OptionKind::String && r@[1].required && !r@[1].autocomplete,
    {
        let mut r: Vec<OptionSpec> = Vec::new();
        r.push(declare("trigger", "The word that will trigger the reaction (case-insensitive)", OptionKind::String, true, false));
        r.push(declare("emote", "The emote to react with", OptionKind::String, true, false));
        r
    }

    /// Decodes an invocation's inputs; refused at the first declared input
    /// that does not fit.
    pub fn decode(provided: &Vec<CommandOption>) -> (r: Result<AddAutoreact, DecodeError>)
        ensures
            r is Ok <==> (fits(provided@, "trigger"@, OptionKind::String, true) && fits(provided@, "emote"@, OptionKind::String, true)),
            match r {
                Ok(c) => Some(c.trigger) == string_input(provided@, "trigger"@) && Some(c.emote) == string_input(provided@, "emote"@),
                Err(e) => (!fits(provided@, "trigger"@, OptionKind::String, true) && reports_input(e, provided@, "trigger"@)) || (fits(provided@, "trigger"@, OptionKind::String, true) && !fits(provided@, "emote"@, OptionKind::String, true) && reports_input(e, provided@, "emote"@)),
            },
    {
        let trigger = match need_string(provided, "trigger") {
            Ok(v) => v,
            Err(e) => return Err(e),
        };
        let emote = match need_string(provided, "emote") {
            Ok(v) => v,
            Err(e) => return Err(e),
        };
        Ok(AddAutoreact { trigger, emote })
    }
}

/// Inputs of the command that removes an automatic reaction.
#[derive(Debug)]
pub struct RemoveAutoreact {
    pub trigger: String,
    pub emote: String,
}

impl RemoveAutoreact {
    /// The command's identity.
    pub fn key() -> (k: CommandKey)
        ensures
            k@ == ("remove_autoreact"@, CommandKind::ChatInput),
    {
        CommandKey::new("remove_autoreact", CommandKind::ChatInput)
    }

    /// The command's description, as registered with the platform.
    pub fn description() -> (s: &'static str)
        ensures
            s@ == "Remove automatic reaction"@,
    {
        "Remove automatic reaction"
    }

    /// The declared inputs, in order.
    pub fn options() -> (r: Vec<OptionSpec>)
        ensures
            r@.len() == 2,
            r@[0].name@ == "trigger"@ && r@[0].description@ == "The word that triggers the reaction (case-insensitive)"@ && r@[0].kind == OptionKind::String && r@[0].required && r@[0].autocomplete,
            r@[1].name@ == "emote"@ && r@[1].description@ == "The emote to stop reacting with"@ && r@[1].kind == OptionKind::String && r@[1].required && r@[1].autocomplete,
    {
        let mut r: Vec<OptionSpec> = Vec::new();
        r.push(declare("trigger", "The word that triggers the reaction (case-insensitive)", OptionKind::String, true, true));
        r.push(declare("emote", "The emote to stop reacting with", OptionKind::String, true, true));
        r
    }

    /// Decodes an invocation's inputs; refused at the first declared input
    /// that does not fit.
    pub fn decode(provided: &Vec<CommandOption>) -> (r: Result<RemoveAutoreact, DecodeError>)
        ensures
            r is Ok <==> (fits(provided@, "trigger"@, OptionKind::String, true) && fits(provided@, "emote"@, OptionKind::String, true)),
            match r {
                Ok(c) => Some(c.trigger) == string_input(provided@, "trigger"@) && Some(c.emote) == string_input(provided@, "emote"@),
                Err(e) => (!fits(provided@, "trigger"@, OptionKind::String, true) && reports_input(e, provided@, "trigger"@)) || (fits(provided@, "trigger"@, OptionKind::String, true) && !fits(provided@, "emote"@, OptionKind::String, true) && reports_input(e, provided@, "emote"@)),
            },
    {
        let trigger = match need_string(provided, "trigger") {
            Ok(v) => v,
            Err(e) => return Err(e),
        };
        let emote = match need_string(provided, "emote") {
            Ok(v) => v,
            Err(e) => return Err(e),
        };
        Ok(RemoveAutoreact { trigger, emote })
    }
}

/// Inputs of the command that charts a listener's albums of the year.
#[derive(Debug)]
pub struct GetAotys {
    pub username: String,
    pub year: Option<i64>,
    pub skip: Option<bool>,
}

impl GetAotys {
    /// The command's identity.
    pub fn key() -> (k: CommandKey)
        ensures
            k@ == ("aoty"@, CommandKind::ChatInput),
    {
        CommandKey::new("aoty", CommandKind::ChatInput)
    }

    /// The command's description, as registered with the platform.
    pub fn description() -> (s: &'static str)
        ensures
            s@ == "Get your albums of the year"@,
    {
        "Get your albums of the year"
    }

    /// The declared inputs, in order.
    pub fn options() -> (r: Vec<OptionSpec>)
        ensures
            r@.len() == 3,
            r@[0].name@ == "username"@ && r@[0].description@ == "Last.fm username"@ && r@[0].kind == OptionKind::String && r@[0].required && !r@[0].autocomplete,
            r@[1].name@ == "year"@ && r@[1].description@ == "year"@ && r@[1].kind == OptionKind::Integer && !r@[1].required && !r@[1].autocomplete,
            r@[2].name@ == "skip"@ && r@[2].description@ == "Skip albums without album art"@ && r@[2].kind == OptionKind::Boolean && !r@[2].required && !r@[2].autocomplete,
    {
        let mut r: Vec<OptionSpec> = Vec::new();
        r.push(declare("username", "Last.fm username", OptionKind::String, true, false));
        r.push(declare("year", "year", OptionKind::Integer, false, false));
        r.push(declare("skip", "Skip albums without album art", OptionKind::Boolean, false, false));
        r
    }

    /// Decodes an invocation's inputs; refused at the first declared input
    /// that does not fit.
    pub fn decode(provided: &Vec<CommandOption>) -> (r: Result<GetAotys, DecodeError>)
        ensures
            r is Ok <==> (fits(provided@, "username"@, OptionKind::String, true) && fits(provided@, "year"@, OptionKind::Integer, false) && fits(provided@, "skip"@, OptionKind::Boolean, false)),
            match r {
                Ok(c) => Some(c.username) == string_input(provided@, "username"@) && c.year == integer_input(provided@, "year"@) && c.skip == boolean_input(provided@, "skip"@),
                Err(e) => (!fits(provided@, "username"@, OptionKind::String, true) && reports_input(e, provided@, "username"@)) || (fits(provided@, "username"@, OptionKind::String, true) && !fits(provided@, "year"@, OptionKind::Integer, false) && reports_input(e, provided@, "year"@)) || (fits(provided@, "username"@, OptionKind::String, true) && fits(provided@, "year"@, OptionKind::Integer, false) && !fits(provided@, "skip"@, OptionKind::Boolean, false) && reports_input(e, provided@, "skip"@)),
            },
    {
        let username = match need_string(provided, "username") {
            Ok(v) => v,
            Err(e) => return Err(e),
        };
        let year = match take_integer(provided, "year", false) {
            Ok(v) => v,
            Err(e) => return Err(e),
        };
        let skip = match take_boolean(provided, "skip", false) {
            Ok(v) => v,
            Err(e) => return Err(e),
        };
        Ok(GetAotys { username, year, skip })
    }
}


/// A recorded birthday; the year is optional.
#[derive(Debug, Clone, Copy, PartialEq, Eq, Structural)]
pub struct Birthday {
    pub user_id: u64,
    pub day: u8,
    pub month: u8,
    pub year: Option<u16>,
}

impl SetBday {
    /// The birthday to record for `user_id`, when the day lies in 1..=31,
    /// the month in 1..=12 and the year, if given, fits in 16 bits.
    pub fn birthday(&self, user_id: u64) -> (r: Option<Birthday>)
        ensures
            r is Some <==> (1 <= self.day <= 31 && 1 <= self.month <= 12 && match self.year {
                Some(y) => 0 <= y <= u16::MAX,
                None => true,
            }),
            match r {
                Some(b) => b.user_id == user_id && b.day == self.day && b.month == self.month && match self.year {
                    Some(y) => b.year == Some(y as u16),
                    None => b.year is None,
                },
                None => true,
            },
    {
        if self.day < 1 || self.day > 31 || self.month < 1 || self.month > 12 {
            return None;
        }
        let year = match self.year {
            Some(y) => {
                if y < 0 || y > u16::MAX as i64 {
                    return None;
                }
                Some(y as u16)
            },
            None => None,
        };
        Some(Birthday { user_id, day: self.day as u8, month: self.month as u8, year })
    }

    /// The confirmation shown to the invoker.
    pub fn response() -> (r: CommandResponse)
        ensures
            contents_and_flags(r) == Some(("Birthday set!"@, true)),
    {
        CommandResponse::Private(String::from_str("Birthday set!"))
    }
}

impl SetCreateThreads {
    /// The setting to store: threads are created only when asked for.
    pub fn enabled(&self) -> (b: bool)
        ensures
            b == (self.create_threads == Some(true)),
    {
        match self.create_threads {
            Some(b) => b,
            None => false,
        }
    }

    /// The confirmation shown to the invoker.
    pub fn response(&self) -> (r: CommandResponse)
        ensures
            contents_and_flags(r) == Some((
                if self.create_threads == Some(true) {
                    "LPBot will create threads for listening parties"@
                } else {
                    "LPBot will not create threads for listening parties"@
                },
                true,
            )),
    {
        if self.enabled() {
            CommandResponse::Private(String::from_str("LPBot will create threads for listening parties"))
        } else {
            CommandResponse::Private(String::from_str("LPBot will not create threads for listening parties"))
        }
    }
}

impl SetWebhook {
    /// The confirmation shown to the invoker.
    pub fn response(&self) -> (r: CommandResponse)
        ensures
            contents_and_flags(r) == Some((
                if self.webhook is Some {
                    "LPBot will use a webhook"@
                } else {
                    "LPBot will not use a webhook"@
                },
                true,
            )),
    {
        if self.webhook.is_some() {
            CommandResponse::Private(String::from_str("LPBot will use a webhook"))
        } else {
            CommandResponse::Private(String::from_str("LPBot will not use a webhook"))
        }
    }
}

impl SetPinboardWebhook {
    /// The confirmation shown to the invoker.
    pub fn response(&self) -> (r: CommandResponse)
        ensures
            contents_and_flags(r) == Some((
                if self.webhook is Some {
                    "Pinboard webhook set"@
                } else {
                    "Pinboard webhook removed"@
                },
                true,
            )),
    {
        if self.webhook.is_some() {
            CommandResponse::Private(String::from_str("Pinboard webhook set"))
        } else {
            CommandResponse::Private(String::from_str("Pinboard webhook removed"))
        }
    }
}

impl AddAutoreact {
    /// The confirmation shown to the invoker.
    pub fn response() -> (r: CommandResponse)
        ensures
            contents_and_flags(r) == Some(("Autoreact added"@, true)),
    {
        CommandResponse::Private(String::from_str("Autoreact added"))
    }
}

impl RemoveAutoreact {
    /// The confirmation shown to the invoker.
    pub fn response() -> (r: CommandResponse)
        ensures
            contents_and_flags(r) == Some(("Autoreact removed"@, true)),
    {
        CommandResponse::Private(String::from_str("Autoreact removed"))
    }
}

} // verus!
