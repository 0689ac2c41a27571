//! Routing one invocation to its command, and turning what the command
//! produced into the protocol's reply: at most one, and exactly one private
//! message whenever the command failed.
use vstd::prelude::*;

use crate::command::{CommandDescriptor, CommandKey, CommandTable};
use crate::options::{decode, find_value, reports, satisfies, CommandOption, DecodeError, OptionValue};

verus! {

/// What a command produced.
#[derive(Debug)]
pub enum CommandResponse {
    /// Nothing further to send: the command made its own visible effect.
    NoReply,
    /// Text everyone in the channel sees.
    Public(String),
    /// Text only the invoker sees.
    Private(String),
}

/// The text of a response and whether it is private; nothing for `None`.
pub open spec fn contents_and_flags(r: CommandResponse) -> Option<(Seq<char>, bool)> {
    match r {
        CommandResponse::NoReply => None,
        CommandResponse::Public(s) => Some((s@, false)),
        CommandResponse::Private(s) => Some((s@, true)),
    }
}

impl CommandResponse {
    /// The text to send and whether only the invoker sees it.
    pub fn to_contents_and_flags(self) -> (r: Option<(String, bool)>)
        ensures
            match r {
                Some((s, private)) => contents_and_flags(self) == Some((s@, private)),
                None => contents_and_flags(self) is None,
            },
    {
        match self {
            CommandResponse::NoReply => None,
            CommandResponse::Public(s) => Some((s, false)),
            CommandResponse::Private(s) => Some((s, true)),
        }
    }
}

/// How far an interaction has been acknowledged.
#[derive(Debug, Clone, Copy, PartialEq, Eq, Structural)]
pub enum AckState {
    /// Nothing sent yet; the acknowledgment window is open.
    Pending,
    /// Acknowledged with a deferral; the answer comes as a follow-up.
    Deferred,
    /// Acknowledged with a message.
    Responded,
}

/// How a reply reaches the invoker.
#[derive(Debug, Clone, Copy, PartialEq, Eq, Structural)]
pub enum ReplyKind {
    /// The acknowledgment itself, carrying the message.
    Respond,
    /// A message after the acknowledgment.
    FollowUp,
}

/// One message to send for an interaction.
#[derive(Debug)]
pub struct Reply {
    pub kind: ReplyKind,
    pub content: String,
    pub private: bool,
}

impl View for Reply {
    type V = (ReplyKind, Seq<char>, bool);

    open spec fn view(&self) -> (ReplyKind, Seq<char>, bool) {
        (self.kind, self.content@, self.private)
    }
}

/// A message acknowledges the interaction if nothing did yet; otherwise it
/// follows up.
pub open spec fn kind_for(ack: AckState) -> ReplyKind {
    match ack {
        AckState::Pending => ReplyKind::Respond,
        _ => ReplyKind::FollowUp,
    }
}

/// The reply owed for an execution's outcome: none for `None`, the text with
/// its visibility otherwise, and for an error a private message with the
/// error's description.
pub open spec fn reply_spec(ack: AckState, outcome: Result<CommandResponse, String>) -> Option<(ReplyKind, Seq<char>, bool)> {
    match outcome {
        Ok(resp) => match contents_and_flags(resp) {
            None => None,
            Some((s, private)) => Some((kind_for(ack), s, private)),
        },
        Err(e) => Some((kind_for(ack), e@, true)),
    }
}

pub fn reply_kind(ack: AckState) -> (k: ReplyKind)
    ensures
        k == kind_for(ack),
{
    match ack {
        AckState::Pending => ReplyKind::Respond,
        _ => ReplyKind::FollowUp,
    }
}

/// Turns an execution's outcome into the one reply to send, if any.
pub fn reply_for(ack: AckState, outcome: Result<CommandResponse, String>) -> (r: Option<Reply>)
    ensures
        match r {
            Some(reply) => reply_spec(ack, outcome) == Some(reply@),
            None => reply_spec(ack, outcome) is None,
        },
{
    let kind = reply_kind(ack);
    match outcome {
        Ok(resp) => match resp.to_contents_and_flags() {
            None => None,
            Some((content, private)) => Some(Reply { kind, content, private }),
        },
        Err(e) => Some(Reply { kind, content: e, private: true }),
    }
}

/// A slow command defers before its slow work. Only a pending interaction
/// is deferred; one acknowledged already is not acknowledged again. Returns
/// the new state and whether to send the deferral.
pub fn defer(ack: AckState) -> (r: (AckState, bool))
    ensures
        r.1 == (ack == AckState::Pending),
        r.0 == if ack == AckState::Pending { AckState::Deferred } else { ack },
{
    match ack {
        AckState::Pending => (AckState::Deferred, true),
        _ => (ack, false),
    }
}

/// The state after sending a reply of kind `kind`.
pub fn after_reply(ack: AckState, kind: ReplyKind) -> (r: AckState)
    ensures
        r == if kind == ReplyKind::Respond { AckState::Responded } else { ack },
{
    match kind {
        ReplyKind::Respond => AckState::Responded,
        ReplyKind::FollowUp => ack,
    }
}

/// Why an invocation could not be run.
#[derive(Debug)]
pub enum DispatchError {
    /// No command is registered under the invoked identity.
    UnknownCommand(String),
    /// The supplied inputs do not fit the command's declaration.
    BadArguments(DecodeError),
}

impl DispatchError {
    pub open spec fn message_spec(&self) -> Seq<char> {
        match self {
            DispatchError::UnknownCommand(n) => "unknown command: "@ + n@,
            DispatchError::BadArguments(e) => match e {
                DecodeError::Missing(n) => "missing required argument: "@ + n@,
                DecodeError::Mismatch(n) => "wrong type for argument: "@ + n@,
            },
        }
    }

    /// The text shown, privately, to the invoking user.
    pub fn message(&self) -> (s: String)
        ensures
            s@ == self.message_spec(),
    {
        match self {
            DispatchError::UnknownCommand(n) => {
                let mut s = String::from_str("unknown command: ");
                s.append(n.as_str());
                s
            },
            DispatchError::BadArguments(e) => e.message(),
        }
    }
}

/// Looks up the invoked command and decodes its inputs against the
/// command's declaration.
pub fn prepare<'a, C>(
    table: &'a CommandTable<C>,
    key: &CommandKey,
    provided: &Vec<CommandOption>,
) -> (r: Result<(&'a CommandDescriptor<C>, Vec<Option<OptionValue>>), DispatchError>)
    requires
        table.wf(),
    ensures
        match r {
            Ok((d, vals)) => {
                &&& table@.contains_key(key@)
                &&& *d == table@[key@]
                &&& vals@.len() == d.options@.len()
                &&& forall|i: int| 0 <= i < vals@.len() ==> #[trigger] vals@[i] == find_value(provided@, d.options@[i].name@)
            },
            Err(DispatchError::UnknownCommand(n)) => !table@.contains_key(key@) && n@ == key@.0,
            Err(DispatchError::BadArguments(e)) => {
                let schema = table@[key@].options@;
                &&& table@.contains_key(key@)
                &&& exists|i: int| 0 <= i < schema.len()
                    && (forall|j: int| 0 <= j < i ==> satisfies(#[trigger] schema[j], find_value(provided@, schema[j].name@)))
                    && !satisfies(#[trigger] schema[i], find_value(provided@, schema[i].name@))
                    && reports(e, schema[i], find_value(provided@, schema[i].name@))
            },
        },
{
    match table.get(key) {
        None => Err(DispatchError::UnknownCommand(key.name.clone())),
        Some(d) => match decode(&d.options, provided) {
            Ok(vals) => Ok((d, vals)),
            Err(e) => Err(DispatchError::BadArguments(e)),
        },
    }
}

/// The reply for an invocation that could not be run: private, with the
/// reason, acknowledging the interaction.
pub fn dispatch_error_reply(e: &DispatchError) -> (r: Reply)
    ensures
        r.kind == ReplyKind::Respond,
        r.private,
        r.content@ == e.message_spec(),
{
    Reply { kind: ReplyKind::Respond, content: e.message(), private: true }
}

/// A failed execution is answered by exactly one message, never none and
/// never two; it is private and carries the error's description, whether
/// or not the command had acknowledged the interaction before it failed.
pub proof fn lemma_error_single_private_reply(ack: AckState, e: String)
    ensures
        reply_spec(ack, Err(e)) is Some,
        reply_spec(ack, Err(e)) == Some((kind_for(ack), e@, true)),
        ack != AckState::Pending ==> reply_spec(ack, Err(e)).unwrap().0 == ReplyKind::FollowUp,
{
}

} // verus!
