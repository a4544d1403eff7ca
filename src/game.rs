//! The dispatcher: the outbound envelopes for the host's requests, and the
//! handling of inbound envelopes.
use crate::decode::{
    cases_view, decode, decode_spec, ActionCase, CaseModel, DecodeError, DecodeErrorModel,
    DecodedAction, DecodedModel, Payload, PayloadModel,
};
use crate::json::{Json, JsonValue};
use crate::sanitize::{sanitize, sanitized};
use crate::schema::{
    actions_view, opt_text, texts_view, Action, ActionModel, ClientCommand,
    ClientCommandContents, ClientCommandModel, ContentsModel, ServerCommand, ServerCommandModel,
};
use vstd::prelude::*;

verus! {

/// An error met while reading a message.
#[derive(Debug, PartialEq)]
pub enum Error {
    /// The message is not a protocol envelope; the text says what is wrong.
    Json(String),
}

/// Sets of actions that can be registered or unregistered together: each
/// knows its descriptors and their names.
pub trait ActionMetadata {
    fn actions() -> Vec<Action>;

    fn names() -> Vec<String>;
}

/// An action descriptor with its schema sanitized.
pub open spec fn sanitized_action(a: ActionModel) -> ActionModel {
    ActionModel { name: a.name, description: a.description, schema: sanitized(a.schema) }
}

/// Sanitizes the schema of an action descriptor before it goes on the wire.
pub fn cleanup_action(action: &mut Action)
    ensures
        final(action)@ == sanitized_action(old(action)@),
{
    let mut schema = JsonValue::Null;
    std::mem::swap(&mut action.schema, &mut schema);
    action.schema = sanitize(schema);
}

/// What a failure to decode says about itself.
pub open spec fn error_text(e: DecodeErrorModel) -> Seq<char> {
    match e {
        DecodeErrorModel::UnknownAction(n) => "unexpected action: `"@ + n + "`"@,
        DecodeErrorModel::Malformed(m) => m,
    }
}

/// The message of the failed result that answers an action that did not decode.
pub open spec fn failure_message(e: DecodeErrorModel) -> Seq<char> {
    "Failed to deserialize Neuro-provided action data: "@ + error_text(e)
}

/// What the host is to do about an inbound message.
#[derive(Debug, PartialEq)]
pub enum Inbound {
    /// Send this envelope, and nothing else: the host's handler is not called.
    Reply(ClientCommand),
    /// Call the host's handler with the action, then send its result.
    Invoke { id: String, action: DecodedAction },
    /// Register every action that should be registered now.
    ReregisterActions,
    /// Shut down at the next graceful point (or no longer, on `false`).
    GracefulShutdown(bool),
    /// Save what can be saved, now.
    ImmediateShutdown,
}

pub enum InboundModel {
    Reply(ClientCommandModel),
    Invoke { id: Seq<char>, action: DecodedModel },
    ReregisterActions,
    GracefulShutdown(bool),
    ImmediateShutdown,
}

impl View for Inbound {
    type V = InboundModel;

    open spec fn view(&self) -> InboundModel {
        match self {
            Inbound::Reply(c) => InboundModel::Reply(c@),
            Inbound::Invoke { id, action } => InboundModel::Invoke { id: id@, action: action@ },
            Inbound::ReregisterActions => InboundModel::ReregisterActions,
            Inbound::GracefulShutdown(w) => InboundModel::GracefulShutdown(*w),
            Inbound::ImmediateShutdown => InboundModel::ImmediateShutdown,
        }
    }
}

/// The payload of an inbound action: absent, or its text with what the
/// lenient reader made of it.
pub open spec fn payload_of(data: Option<Seq<char>>, parsed: Result<Json, Seq<char>>) -> PayloadModel {
    match data {
        None => PayloadModel::Absent,
        Some(t) => PayloadModel::Text { text: t, parsed },
    }
}

/// What the host of game `game`, which knows the actions `cases`, is to do
/// about inbound message `cmd` (`parsed` is what the lenient reader made of the
/// action's data, when it has some).
pub open spec fn inbound_spec(
    game: Seq<char>,
    cases: Seq<CaseModel>,
    cmd: ServerCommandModel,
    parsed: Result<Json, Seq<char>>,
) -> InboundModel {
    match cmd {
        ServerCommandModel::Action { id, name, data } => match decode_spec(
            cases,
            name,
            payload_of(data, parsed),
        ) {
            Ok(a) => InboundModel::Invoke { id, action: a },
            Err(e) => InboundModel::Reply(
                ClientCommandModel {
                    command: ContentsModel::ActionResult {
                        id,
                        success: false,
                        message: Some(failure_message(e)),
                    },
                    game,
                },
            ),
        },
        ServerCommandModel::ReregisterAllActions => InboundModel::ReregisterActions,
        ServerCommandModel::GracefulShutdown { wants_shutdown } => InboundModel::GracefulShutdown(
            wants_shutdown,
        ),
        ServerCommandModel::ImmediateShutdown => InboundModel::ImmediateShutdown,
    }
}

/// An action whose payload does not decode is answered by exactly one
/// envelope, a failed result for its id whose message says that its data
/// could not be deserialized and why, and is never handed to the host.
pub proof fn lemma_undecodable_action_answered(
    game: Seq<char>,
    cases: Seq<CaseModel>,
    id: Seq<char>,
    name: Seq<char>,
    data: Option<Seq<char>>,
    parsed: Result<Json, Seq<char>>,
)
    requires
        decode_spec(cases, name, payload_of(data, parsed)) is Err,
    ensures
        ({
            let e = decode_spec(cases, name, payload_of(data, parsed))->Err_0;
            &&& inbound_spec(game, cases, ServerCommandModel::Action { id, name, data }, parsed)
                == InboundModel::Reply(
                ClientCommandModel {
                    command: ContentsModel::ActionResult {
                        id,
                        success: false,
                        message: Some(failure_message(e)),
                    },
                    game,
                },
            )
            &&& failure_message(e).subrange(0, 50)
                == "Failed to deserialize Neuro-provided action data: "@
        }),
{
    let e = decode_spec(cases, name, payload_of(data, parsed))->Err_0;
    let p = "Failed to deserialize Neuro-provided action data: "@;
    reveal_strlit("Failed to deserialize Neuro-provided action data: ");
    assert(p.len() == 50);
    assert(failure_message(e).subrange(0, 50) =~= p);
}

/// The host's side of the protocol: every envelope it builds carries the
/// game's name.
#[derive(Debug, PartialEq)]
pub struct Dispatcher {
    /// The game's display name, including spaces and symbols.
    pub game: String,
}

/// A request that the controller pick one of the named actions; its optional
/// parts are set before it is sent.
#[derive(Debug, PartialEq)]
pub struct ForceActionsBuilder {
    pub game: String,
    /// The state of the game, in any text format; none by default.
    pub state: Option<String>,
    pub query: String,
    /// Whether the controller forgets `state` and `query` after the force;
    /// left to the controller by default.
    pub ephemeral_context: Option<bool>,
    pub action_names: Vec<String>,
}

impl ForceActionsBuilder {
    /// Says whether the context is remembered only for the force.
    pub fn with_ephemeral_context(self, ephemeral_context: bool) -> (r: Self)
        ensures
            r.ephemeral_context == Some(ephemeral_context),
            r.game == self.game,
            r.state == self.state,
            r.query == self.query,
            r.action_names == self.action_names,
    {
        ForceActionsBuilder { ephemeral_context: Some(ephemeral_context), ..self }
    }

    /// Sets the state of the game that goes with the request.
    pub fn with_state(self, state: String) -> (r: Self)
        ensures
            r.state == Some(state),
            r.game == self.game,
            r.ephemeral_context == self.ephemeral_context,
            r.query == self.query,
            r.action_names == self.action_names,
    {
        ForceActionsBuilder { state: Some(state), ..self }
    }

    /// The `actions/force` envelope.
    pub fn send(self) -> (r: ClientCommand)
        ensures
            r@ == (ClientCommandModel {
                command: ContentsModel::ForceActions {
                    state: opt_text(self.state),
                    query: self.query@,
                    ephemeral_context: self.ephemeral_context,
                    action_names: texts_view(self.action_names@),
                },
                game: self.game@,
            }),
    {
        ClientCommand {
            command: ClientCommandContents::ForceActions {
                state: self.state,
                query: self.query,
                ephemeral_context: self.ephemeral_context,
                action_names: self.action_names,
            },
            game: self.game,
        }
    }
}

impl Dispatcher {
    pub fn new(game: String) -> (r: Dispatcher)
        ensures
            r.game == game,
    {
        Dispatcher { game }
    }

    fn envelope(&self, command: ClientCommandContents) -> (r: ClientCommand)
        ensures
            r@ == (ClientCommandModel { command: command@, game: self.game@ }),
    {
        ClientCommand { command, game: self.game.clone() }
    }

    /// The `startup` envelope, to send first and after every reconnection;
    /// the host then registers its actions again.
    pub fn initialize(&self) -> (r: ClientCommand)
        ensures
            r@ == (ClientCommandModel { command: ContentsModel::Startup, game: self.game@ }),
    {
        self.envelope(ClientCommandContents::Startup)
    }

    /// The `context` envelope: tells the controller what happens in the game.
    pub fn context(&self, context: String, silent: bool) -> (r: ClientCommand)
        ensures
            r@ == (ClientCommandModel {
                command: ContentsModel::Context { message: context@, silent },
                game: self.game@,
            }),
    {
        self.envelope(ClientCommandContents::Context { message: context, silent })
    }

    /// The `actions/register` envelope, each schema sanitized; duplicates are
    /// kept as they are.
    pub fn register_actions_raw(&self, actions: Vec<Action>) -> (r: ClientCommand)
        ensures
            r@ == (ClientCommandModel {
                command: ContentsModel::RegisterActions {
                    actions: actions_view(actions@).map_values(
                        |a: ActionModel| sanitized_action(a),
                    ),
                },
                game: self.game@,
            }),
    {
        let ghost orig = actions@;
        let mut rest = actions;
        let mut out: Vec<Action> = Vec::new();
        let mut i: usize = 0;
        let n = rest.len();
        while rest.len() > 0
            invariant
                n == orig.len(),
                i <= n,
                rest@ == orig.subrange(i as int, n as int),
                out@.len() == i,
                forall|j: int| 0 <= j < i ==> (#[trigger] out@[j])@ == sanitized_action(orig[j]@),
            decreases rest.len(),
        {
            let mut a = rest.remove(0);
            assert(a == orig[i as int]);
            cleanup_action(&mut a);
            out.push(a);
            i = i + 1;
        }
        assert(actions_view(out@) =~= actions_view(orig).map_values(
            |a: ActionModel| sanitized_action(a),
        ));
        self.envelope(ClientCommandContents::RegisterActions { actions: out })
    }

    /// The `actions/unregister` envelope; an unknown name is no error.
    pub fn unregister_actions_raw(&self, action_names: Vec<String>) -> (r: ClientCommand)
        ensures
            r@ == (ClientCommandModel {
                command: ContentsModel::UnregisterActions {
                    action_names: texts_view(action_names@),
                },
                game: self.game@,
            }),
    {
        self.envelope(ClientCommandContents::UnregisterActions { action_names })
    }

    /// A request that the controller pick one of `action_names`, with no state
    /// and the context's lifetime left to the controller until set otherwise.
    pub fn force_actions_raw(&self, query: String, action_names: Vec<String>) -> (r:
        ForceActionsBuilder)
        ensures
            r.game@ == self.game@,
            r.state is None,
            r.query == query,
            r.ephemeral_context is None,
            r.action_names == action_names,
    {
        ForceActionsBuilder {
            game: self.game.clone(),
            state: None,
            query,
            ephemeral_context: None,
            action_names,
        }
    }

    /// The `actions/result` envelope for the host's outcome of action `id`:
    /// `Ok` succeeds and `Err` fails, each with its optional message.
    pub fn action_result(&self, id: String, outcome: Result<Option<String>, Option<String>>) -> (r:
        ClientCommand)
        ensures
            r@ == (ClientCommandModel {
                command: ContentsModel::ActionResult {
                    id: id@,
                    success: outcome is Ok,
                    message: match outcome {
                        Ok(m) => opt_text(m),
                        Err(m) => opt_text(m),
                    },
                },
                game: self.game@,
            }),
    {
        match outcome {
            Ok(message) => self.envelope(
                ClientCommandContents::ActionResult { id, success: true, message },
            ),
            Err(message) => self.envelope(
                ClientCommandContents::ActionResult { id, success: false, message },
            ),
        }
    }

    /// Handles an inbound message. An action is decoded against `cases` (its
    /// data read by the lenient reader into `parsed`, which is ignored where
    /// the action has no data): if it decodes, the host is to call its handler;
    /// if not, the only thing to do is to send the failed result. Control
    /// requests are passed on to the host, with nothing to send.
    pub fn handle_message(
        &self,
        cases: &Vec<ActionCase>,
        command: ServerCommand,
        parsed: Result<JsonValue, String>,
    ) -> (r: Inbound)
        ensures
            r@ == inbound_spec(
                self.game@,
                cases_view(cases@),
                command@,
                match parsed {
                    Ok(v) => Ok(v@),
                    Err(e) => Err(e@),
                },
            ),
    {
        match command {
            ServerCommand::Action { id, name, data } => {
                let payload = match data {
                    None => Payload::Absent,
                    Some(text) => Payload::Text { text, parsed },
                };
                match decode(cases, name.as_str(), payload) {
                    Ok(action) => Inbound::Invoke { id, action },
                    Err(e) => {
                        let ghost ev = e@;
                        let mut message = String::from_str(
                            "Failed to deserialize Neuro-provided action data: ",
                        );
                        match e {
                            DecodeError::UnknownAction(n) => {
                                message.append("unexpected action: `");
                                message.append(n.as_str());
                                message.append("`");
                                assert(message@ =~= failure_message(ev));
                            },
                            DecodeError::Malformed(m) => {
                                message.append(m.as_str());
                                assert(message@ =~= failure_message(ev));
                            },
                        }
                        Inbound::Reply(
                            self.envelope(
                                ClientCommandContents::ActionResult {
                                    id,
                                    success: false,
                                    message: Some(message),
                                },
                            ),
                        )
                    },
                }
            },
            ServerCommand::ReregisterAllActions => Inbound::ReregisterActions,
            ServerCommand::GracefulShutdown { wants_shutdown } => Inbound::GracefulShutdown(
                wants_shutdown,
            ),
            ServerCommand::ImmediateShutdown => Inbound::ImmediateShutdown,
        }
    }
}

} // verus!
