//! The protocol's envelopes and action descriptors, with their JSON form.
use crate::game::Error;
use crate::json::{
    items_view, lemma_items_view, lemma_items_view_push, lemma_members_view_push, lookup, member,
    members_view, text_eq, text_of, Json, JsonValue,
};
use vstd::prelude::*;

verus! {

/// A registerable command that the controller can execute whenever it wants.
#[derive(Debug, PartialEq)]
pub struct Action {
    /// The action's unique name, lowercase with words separated by
    /// underscores or dashes (`"join_friend_lobby"`).
    pub name: String,
    /// What the action does, in plain text.
    pub description: String,
    /// The schema of the action's parameters; `{}` where it has none.
    pub schema: JsonValue,
}

/// The model of an action descriptor.
pub struct ActionModel {
    pub name: Seq<char>,
    pub description: Seq<char>,
    pub schema: Json,
}

impl View for Action {
    type V = ActionModel;

    open spec fn view(&self) -> ActionModel {
        ActionModel { name: self.name@, description: self.description@, schema: self.schema@ }
    }
}

/// A host-to-controller command, without the `game` field.
#[derive(Debug, PartialEq)]
#[allow(inconsistent_fields)]
pub enum ClientCommandContents {
    /// Sent first, when the game starts: clears the actions registered before.
    Startup,
    /// Tells the controller what is happening in the game.
    Context {
        message: String,
        /// Whether the controller takes the message in without answering it.
        silent: bool,
    },
    /// Registers actions.
    RegisterActions { actions: Vec<Action> },
    /// Unregisters actions by name; an unknown name is no error.
    UnregisterActions { action_names: Vec<String> },
    /// Asks the controller to execute one of the named actions soon.
    ForceActions {
        /// The state of the game, in any text format.
        state: Option<String>,
        /// What the controller is to do now.
        query: String,
        /// Whether `state` and `query` are forgotten once the force is over.
        ephemeral_context: Option<bool>,
        action_names: Vec<String>,
    },
    /// The result of an action, sent as soon as it was validated.
    ActionResult {
        /// The id of the action this result is for.
        id: String,
        /// Whether it succeeded; a failure retries a pending force.
        success: bool,
        message: Option<String>,
    },
    /// Sent once progress is saved after a shutdown request.
    ShutdownReady,
}

/// A host-to-controller message.
#[derive(Debug, PartialEq)]
pub struct ClientCommand {
    pub command: ClientCommandContents,
    /// The game's display name; the same in every message of a process.
    pub game: String,
}

/// A controller-to-host message.
#[derive(Debug, PartialEq)]
pub enum ServerCommand {
    /// The controller invokes an action.
    Action {
        /// The id to answer with in the action result.
        id: String,
        /// The name of the action.
        name: String,
        /// The action's parameters as text; absent where it takes none.
        data: Option<String>,
    },
    /// The controller asks for every action to be registered again.
    ReregisterAllActions,
    /// The controller asks for (or withdraws) a shutdown at the next
    /// graceful point.
    GracefulShutdown { wants_shutdown: bool },
    /// The controller asks for an immediate shutdown.
    ImmediateShutdown,
}

/// The model of a host-to-controller command.
#[allow(inconsistent_fields)]
pub enum ContentsModel {
    Startup,
    Context { message: Seq<char>, silent: bool },
    RegisterActions { actions: Seq<ActionModel> },
    UnregisterActions { action_names: Seq<Seq<char>> },
    ForceActions {
        state: Option<Seq<char>>,
        query: Seq<char>,
        ephemeral_context: Option<bool>,
        action_names: Seq<Seq<char>>,
    },
    ActionResult { id: Seq<char>, success: bool, message: Option<Seq<char>> },
    ShutdownReady,
}

/// The model of a host-to-controller message.
pub struct ClientCommandModel {
    pub command: ContentsModel,
    pub game: Seq<char>,
}

/// The model of a controller-to-host message.
pub enum ServerCommandModel {
    Action { id: Seq<char>, name: Seq<char>, data: Option<Seq<char>> },
    ReregisterAllActions,
    GracefulShutdown { wants_shutdown: bool },
    ImmediateShutdown,
}

pub open spec fn opt_text(o: Option<String>) -> Option<Seq<char>> {
    match o {
        Some(s) => Some(s@),
        None => None,
    }
}

pub open spec fn texts_view(v: Seq<String>) -> Seq<Seq<char>> {
    v.map_values(|s: String| s@)
}

pub open spec fn actions_view(v: Seq<Action>) -> Seq<ActionModel> {
    v.map_values(|a: Action| a@)
}

impl View for ClientCommandContents {
    type V = ContentsModel;

    open spec fn view(&self) -> ContentsModel {
        match self {
            ClientCommandContents::Startup => ContentsModel::Startup,
            ClientCommandContents::Context { message, silent } => ContentsModel::Context {
                message: message@,
                silent: *silent,
            },
            ClientCommandContents::RegisterActions { actions } => ContentsModel::RegisterActions {
                actions: actions_view(actions@),
            },
            ClientCommandContents::UnregisterActions { action_names } =>
                ContentsModel::UnregisterActions { action_names: texts_view(action_names@) },
            ClientCommandContents::ForceActions {
                state,
                query,
                ephemeral_context,
                action_names,
            } => ContentsModel::ForceActions {
                state: opt_text(*state),
                query: query@,
                ephemeral_context: *ephemeral_context,
                action_names: texts_view(action_names@),
            },
            ClientCommandContents::ActionResult { id, success, message } =>
                ContentsModel::ActionResult { id: id@, success: *success, message: opt_text(*message) },
            ClientCommandContents::ShutdownReady => ContentsModel::ShutdownReady,
        }
    }
}

impl View for ClientCommand {
    type V = ClientCommandModel;

    open spec fn view(&self) -> ClientCommandModel {
        ClientCommandModel { command: self.command@, game: self.game@ }
    }
}

impl View for ServerCommand {
    type V = ServerCommandModel;

    open spec fn view(&self) -> ServerCommandModel {
        match self {
            ServerCommand::Action { id, name, data } => ServerCommandModel::Action {
                id: id@,
                name: name@,
                data: opt_text(*data),
            },
            ServerCommand::ReregisterAllActions => ServerCommandModel::ReregisterAllActions,
            ServerCommand::GracefulShutdown { wants_shutdown } =>
                ServerCommandModel::GracefulShutdown { wants_shutdown: *wants_shutdown },
            ServerCommand::ImmediateShutdown => ServerCommandModel::ImmediateShutdown,
        }
    }
}

// ---- JSON form ----

pub open spec fn opt_text_json(o: Option<Seq<char>>) -> Json {
    match o {
        Some(s) => Json::Str(s),
        None => Json::Null,
    }
}

pub open spec fn opt_flag_json(o: Option<bool>) -> Json {
    match o {
        Some(b) => Json::Bool(b),
        None => Json::Null,
    }
}

pub open spec fn texts_json(ns: Seq<Seq<char>>) -> Json {
    Json::Array(ns.map_values(|n: Seq<char>| Json::Str(n)))
}

/// The JSON form of an action descriptor.
pub open spec fn action_json(a: ActionModel) -> Json {
    Json::Object(
        seq![("name"@, Json::Str(a.name)), ("description"@, Json::Str(a.description)), ("schema"@, a.schema)],
    )
}

pub open spec fn actions_json(s: Seq<ActionModel>) -> Json {
    Json::Array(s.map_values(|a: ActionModel| action_json(a)))
}

/// A command tagged as `command`, with its fields under `data`.
pub open spec fn tagged(tag: Seq<char>, data: Seq<(Seq<char>, Json)>) -> Seq<(Seq<char>, Json)> {
    seq![("command"@, Json::Str(tag)), ("data"@, Json::Object(data))]
}

/// A command without fields: its tag alone.
pub open spec fn bare(tag: Seq<char>) -> Seq<(Seq<char>, Json)> {
    seq![("command"@, Json::Str(tag))]
}

/// The members that carry a host-to-controller command.
pub open spec fn contents_members(c: ContentsModel) -> Seq<(Seq<char>, Json)> {
    match c {
        ContentsModel::Startup => bare("startup"@),
        ContentsModel::Context { message, silent } => tagged(
            "context"@,
            seq![("message"@, Json::Str(message)), ("silent"@, Json::Bool(silent))],
        ),
        ContentsModel::RegisterActions { actions } => tagged(
            "actions/register"@,
            seq![("actions"@, actions_json(actions))],
        ),
        ContentsModel::UnregisterActions { action_names } => tagged(
            "actions/unregister"@,
            seq![("action_names"@, texts_json(action_names))],
        ),
        ContentsModel::ForceActions { state, query, ephemeral_context, action_names } => tagged(
            "actions/force"@,
            seq![
                ("state"@, opt_text_json(state)),
                ("query"@, Json::Str(query)),
                ("ephemeral_context"@, opt_flag_json(ephemeral_context)),
                ("action_names"@, texts_json(action_names)),
            ],
        ),
        ContentsModel::ActionResult { id, success, message } => tagged(
            "actions/result"@,
            seq![
                ("id"@, Json::Str(id)),
                ("success"@, Json::Bool(success)),
                ("message"@, opt_text_json(message)),
            ],
        ),
        ContentsModel::ShutdownReady => bare("shutdown/ready"@),
    }
}

/// The JSON form of a host-to-controller message: the command's members,
/// then `game`.
pub open spec fn client_command_json(c: ClientCommandModel) -> Json {
    Json::Object(contents_members(c.command).push(("game"@, Json::Str(c.game))))
}

/// The JSON form of a controller-to-host message; an absent `data` of an
/// action is left out.
pub open spec fn server_command_json(c: ServerCommandModel) -> Json {
    match c {
        ServerCommandModel::Action { id, name, data } => Json::Object(
            tagged(
                "action"@,
                match data {
                    Some(d) => seq![
                        ("id"@, Json::Str(id)),
                        ("name"@, Json::Str(name)),
                        ("data"@, Json::Str(d)),
                    ],
                    None => seq![("id"@, Json::Str(id)), ("name"@, Json::Str(name))],
                },
            ),
        ),
        ServerCommandModel::ReregisterAllActions => Json::Object(bare("actions/reregister_all"@)),
        ServerCommandModel::GracefulShutdown { wants_shutdown } => Json::Object(
            tagged("shutdown/graceful"@, seq![("wants_shutdown"@, Json::Bool(wants_shutdown))]),
        ),
        ServerCommandModel::ImmediateShutdown => Json::Object(bare("shutdown/immediate"@)),
    }
}

// ---- reading the JSON form ----

pub open spec fn as_text(j: Option<Json>) -> Option<Seq<char>> {
    match j {
        Some(Json::Str(s)) => Some(s),
        _ => None,
    }
}

pub open spec fn as_flag(j: Option<Json>) -> Option<bool> {
    match j {
        Some(Json::Bool(b)) => Some(b),
        _ => None,
    }
}

/// An optional text: absent or `null` is `None`.
pub open spec fn as_opt_text(j: Option<Json>) -> Option<Option<Seq<char>>> {
    match j {
        None => Some(None),
        Some(Json::Null) => Some(None),
        Some(Json::Str(s)) => Some(Some(s)),
        _ => None,
    }
}

/// An optional flag: absent or `null` is `None`.
pub open spec fn as_opt_flag(j: Option<Json>) -> Option<Option<bool>> {
    match j {
        None => Some(None),
        Some(Json::Null) => Some(None),
        Some(Json::Bool(b)) => Some(Some(b)),
        _ => None,
    }
}

/// An array of texts.
pub open spec fn as_texts(j: Option<Json>) -> Option<Seq<Seq<char>>> {
    match j {
        Some(Json::Array(xs)) => if forall|i: int| 0 <= i < xs.len() ==> (#[trigger] xs[i]) is Str {
            Some(xs.map_values(|x: Json| x->Str_0))
        } else {
            None
        },
        _ => None,
    }
}

/// An action descriptor; an absent schema is the empty schema `{}`.
pub open spec fn as_action(j: Json) -> Option<ActionModel> {
    match j {
        Json::Object(ms) => match (as_text(lookup(ms, "name"@)), as_text(lookup(ms, "description"@))) {
            (Some(n), Some(d)) => Some(
                ActionModel {
                    name: n,
                    description: d,
                    schema: match lookup(ms, "schema"@) {
                        Some(s) => s,
                        None => Json::Object(Seq::empty()),
                    },
                },
            ),
            _ => None,
        },
        _ => None,
    }
}

/// An array of action descriptors.
pub open spec fn as_actions(j: Option<Json>) -> Option<Seq<ActionModel>> {
    match j {
        Some(Json::Array(xs)) => if forall|i: int|
            0 <= i < xs.len() ==> (#[trigger] as_action(xs[i])) is Some {
            Some(xs.map_values(|x: Json| as_action(x)->0))
        } else {
            None
        },
        _ => None,
    }
}

/// The members of the object under `data`.
pub open spec fn data_of(ms: Seq<(Seq<char>, Json)>) -> Option<Seq<(Seq<char>, Json)>> {
    match lookup(ms, "data"@) {
        Some(Json::Object(d)) => Some(d),
        _ => None,
    }
}

/// The host-to-controller command with tag `tag` and fields `d`.
pub open spec fn contents_data(tag: Seq<char>, d: Seq<(Seq<char>, Json)>) -> Option<ContentsModel> {
    if tag == "context"@ {
        match (as_text(lookup(d, "message"@)), as_flag(lookup(d, "silent"@))) {
            (Some(m), Some(s)) => Some(ContentsModel::Context { message: m, silent: s }),
            _ => None,
        }
    } else if tag == "actions/register"@ {
        match as_actions(lookup(d, "actions"@)) {
            Some(a) => Some(ContentsModel::RegisterActions { actions: a }),
            None => None,
        }
    } else if tag == "actions/unregister"@ {
        match as_texts(lookup(d, "action_names"@)) {
            Some(n) => Some(ContentsModel::UnregisterActions { action_names: n }),
            None => None,
        }
    } else if tag == "actions/force"@ {
        match (
            as_opt_text(lookup(d, "state"@)),
            as_text(lookup(d, "query"@)),
            as_opt_flag(lookup(d, "ephemeral_context"@)),
            as_texts(lookup(d, "action_names"@)),
        ) {
            (Some(s), Some(q), Some(e), Some(n)) => Some(
                ContentsModel::ForceActions {
                    state: s,
                    query: q,
                    ephemeral_context: e,
                    action_names: n,
                },
            ),
            _ => None,
        }
    } else if tag == "actions/result"@ {
        match (
            as_text(lookup(d, "id"@)),
            as_flag(lookup(d, "success"@)),
            as_opt_text(lookup(d, "message"@)),
        ) {
            (Some(i), Some(s), Some(m)) => Some(
                ContentsModel::ActionResult { id: i, success: s, message: m },
            ),
            _ => None,
        }
    } else {
        None
    }
}

/// The host-to-controller command that members `ms` carry, if any.
pub open spec fn contents_of(ms: Seq<(Seq<char>, Json)>) -> Option<ContentsModel> {
    match as_text(lookup(ms, "command"@)) {
        None => None,
        Some(tag) => if tag == "startup"@ {
            Some(ContentsModel::Startup)
        } else if tag == "shutdown/ready"@ {
            Some(ContentsModel::ShutdownReady)
        } else {
            match data_of(ms) {
                Some(d) => contents_data(tag, d),
                None => None,
            }
        },
    }
}

/// The host-to-controller message that a JSON value holds, if any.
pub open spec fn client_command_of(j: Json) -> Option<ClientCommandModel> {
    match j {
        Json::Object(ms) => match (contents_of(ms), as_text(lookup(ms, "game"@))) {
            (Some(c), Some(g)) => Some(ClientCommandModel { command: c, game: g }),
            _ => None,
        },
        _ => None,
    }
}

/// The controller-to-host message that a JSON value holds, if any.
pub open spec fn server_command_of(j: Json) -> Option<ServerCommandModel> {
    match j {
        Json::Object(ms) => match as_text(lookup(ms, "command"@)) {
            None => None,
            Some(tag) => if tag == "actions/reregister_all"@ {
                Some(ServerCommandModel::ReregisterAllActions)
            } else if tag == "shutdown/immediate"@ {
                Some(ServerCommandModel::ImmediateShutdown)
            } else {
                match data_of(ms) {
                    None => None,
                    Some(d) => if tag == "action"@ {
                        match (
                            as_text(lookup(d, "id"@)),
                            as_text(lookup(d, "name"@)),
                            as_opt_text(lookup(d, "data"@)),
                        ) {
                            (Some(i), Some(n), Some(x)) => Some(
                                ServerCommandModel::Action { id: i, name: n, data: x },
                            ),
                            _ => None,
                        }
                    } else if tag == "shutdown/graceful"@ {
                        match as_flag(lookup(d, "wants_shutdown"@)) {
                            Some(w) => Some(ServerCommandModel::GracefulShutdown { wants_shutdown: w }),
                            None => None,
                        }
                    } else {
                        None
                    },
                }
            },
        },
        _ => None,
    }
}

// ---- round trips ----

/// The keys of the JSON form that must be told apart.
proof fn lemma_keys_differ()
    ensures
        "data"@ != "game"@,
        "command"@ != "data"@,
        "command"@ != "game"@,
        "message"@ != "silent"@,
        "state"@ != "query"@,
        "state"@ != "ephemeral_context"@,
        "query"@ != "ephemeral_context"@,
        "state"@ != "action_names"@,
        "query"@ != "action_names"@,
        "ephemeral_context"@ != "action_names"@,
        "id"@ != "success"@,
        "id"@ != "message"@,
        "success"@ != "message"@,
        "name"@ != "description"@,
        "name"@ != "schema"@,
        "description"@ != "schema"@,
        "id"@ != "name"@,
        "id"@ != "data"@,
        "name"@ != "data"@,
{
    reveal_strlit("data");
    reveal_strlit("game");
    reveal_strlit("command");
    reveal_strlit("message");
    reveal_strlit("silent");
    reveal_strlit("state");
    reveal_strlit("query");
    reveal_strlit("ephemeral_context");
    reveal_strlit("action_names");
    reveal_strlit("id");
    reveal_strlit("success");
    reveal_strlit("name");
    reveal_strlit("description");
    reveal_strlit("schema");
    assert("data"@.len() == 4);
    assert("game"@.len() == 4);
    assert("command"@.len() == 7);
    assert("message"@.len() == 7);
    assert("silent"@.len() == 6);
    assert("state"@.len() == 5);
    assert("query"@.len() == 5);
    assert("ephemeral_context"@.len() == 17);
    assert("action_names"@.len() == 12);
    assert("id"@.len() == 2);
    assert("success"@.len() == 7);
    assert("name"@.len() == 4);
    assert("description"@.len() == 11);
    assert("schema"@.len() == 6);
    assert("ephemeral_context"@.len() != "action_names"@.len());
    assert("description"@.len() != "schema"@.len());
    assert("data"@[0] != "game"@[0]);
    assert("state"@[0] != "query"@[0]);
    assert("success"@[0] != "message"@[0]);
    assert("name"@[0] != "data"@[0]);
}

/// The tags of host-to-controller commands differ.
proof fn lemma_client_tags_differ()
    ensures
        "startup"@ != "shutdown/ready"@,
        "context"@ != "startup"@,
        "context"@ != "shutdown/ready"@,
        "actions/register"@ != "startup"@,
        "actions/register"@ != "shutdown/ready"@,
        "actions/register"@ != "context"@,
        "actions/unregister"@ != "startup"@,
        "actions/unregister"@ != "shutdown/ready"@,
        "actions/unregister"@ != "context"@,
        "actions/unregister"@ != "actions/register"@,
        "actions/force"@ != "startup"@,
        "actions/force"@ != "shutdown/ready"@,
        "actions/force"@ != "context"@,
        "actions/force"@ != "actions/register"@,
        "actions/force"@ != "actions/unregister"@,
        "actions/result"@ != "startup"@,
        "actions/result"@ != "shutdown/ready"@,
        "actions/result"@ != "context"@,
        "actions/result"@ != "actions/register"@,
        "actions/result"@ != "actions/unregister"@,
        "actions/result"@ != "actions/force"@,
{
    reveal_strlit("startup");
    reveal_strlit("shutdown/ready");
    reveal_strlit("context");
    reveal_strlit("actions/register");
    reveal_strlit("actions/unregister");
    reveal_strlit("actions/force");
    reveal_strlit("actions/result");
    assert("startup"@.len() == 7);
    assert("shutdown/ready"@.len() == 14);
    assert("context"@.len() == 7);
    assert("actions/register"@.len() == 16);
    assert("actions/unregister"@.len() == 18);
    assert("actions/force"@.len() == 13);
    assert("actions/result"@.len() == 14);
    assert("startup"@.len() != "shutdown/ready"@.len());
    assert("actions/unregister"@.len() != "actions/register"@.len());
    assert("context"@[0] != "startup"@[0]);
    assert("actions/result"@[0] != "shutdown/ready"@[0]);
}

/// The tags of controller-to-host commands differ.
proof fn lemma_server_tags_differ()
    ensures
        "shutdown/immediate"@ != "actions/reregister_all"@,
        "action"@ != "actions/reregister_all"@,
        "action"@ != "shutdown/immediate"@,
        "shutdown/graceful"@ != "actions/reregister_all"@,
        "shutdown/graceful"@ != "shutdown/immediate"@,
        "shutdown/graceful"@ != "action"@,
{
    reveal_strlit("shutdown/immediate");
    reveal_strlit("actions/reregister_all");
    reveal_strlit("action");
    reveal_strlit("shutdown/graceful");
    assert("shutdown/immediate"@.len() == 18);
    assert("actions/reregister_all"@.len() == 22);
    assert("action"@.len() == 6);
    assert("shutdown/graceful"@.len() == 17);
}

proof fn lemma_texts_round_trip(ns: Seq<Seq<char>>)
    ensures
        as_texts(Some(texts_json(ns))) == Some(ns),
{
    let xs = ns.map_values(|n: Seq<char>| Json::Str(n));
    assert(forall|i: int| 0 <= i < xs.len() ==> (#[trigger] xs[i]) is Str);
    assert(xs.map_values(|x: Json| x->Str_0) == ns);
}

proof fn lemma_action_round_trip(a: ActionModel)
    ensures
        as_action(action_json(a)) == Some(a),
{
    reveal_with_fuel(lookup, 4);
    lemma_keys_differ();
    let ms = seq![("name"@, Json::Str(a.name)), ("description"@, Json::Str(a.description)), ("schema"@, a.schema)];
    assert(ms.drop_first() == seq![("description"@, Json::Str(a.description)), ("schema"@, a.schema)]);
    assert(ms.drop_first().drop_first() == seq![("schema"@, a.schema)]);
}

proof fn lemma_actions_round_trip(s: Seq<ActionModel>)
    ensures
        as_actions(Some(actions_json(s))) == Some(s),
{
    let xs = s.map_values(|a: ActionModel| action_json(a));
    assert forall|i: int| 0 <= i < xs.len() implies #[trigger] as_action(xs[i]) == Some(s[i]) by {
        lemma_action_round_trip(s[i]);
    }
    assert(xs.map_values(|x: Json| as_action(x)->0) == s);
}

/// Writing a host-to-controller message as JSON and reading it back gives
/// the message.
pub proof fn lemma_client_command_round_trip(c: ClientCommandModel)
    ensures
        client_command_of(client_command_json(c)) == Some(c),
{
    reveal_with_fuel(lookup, 6);
    lemma_keys_differ();
    lemma_client_tags_differ();
    let g = ("game"@, Json::Str(c.game));
    match c.command {
        ContentsModel::Startup => {
            let ms = bare("startup"@).push(g);
            assert(ms.drop_first() == seq![g]);
        },
        ContentsModel::ShutdownReady => {
            let ms = bare("shutdown/ready"@).push(g);
            assert(ms.drop_first() == seq![g]);
        },
        _ => {
            let ms = contents_members(c.command).push(g);
            let d = ms[1].1->Object_0;
            assert(ms.drop_first() == seq![ms[1], g]);
            assert(ms.drop_first().drop_first() == seq![g]);
            match c.command {
                ContentsModel::Context { message, silent } => {
                    assert(d.drop_first() == seq![d[1]]);
                },
                ContentsModel::RegisterActions { actions } => {
                    lemma_actions_round_trip(actions);
                },
                ContentsModel::UnregisterActions { action_names } => {
                    lemma_texts_round_trip(action_names);
                },
                ContentsModel::ForceActions { state, query, ephemeral_context, action_names } => {
                    lemma_texts_round_trip(action_names);
                    assert(d.drop_first() == seq![d[1], d[2], d[3]]);
                    assert(d.drop_first().drop_first() == seq![d[2], d[3]]);
                    assert(d.drop_first().drop_first().drop_first() == seq![d[3]]);
                },
                ContentsModel::ActionResult { id, success, message } => {
                    assert(d.drop_first() == seq![d[1], d[2]]);
                    assert(d.drop_first().drop_first() == seq![d[2]]);
                },
                _ => {},
            }
        },
    }
}

/// Writing a controller-to-host message as JSON and reading it back gives
/// the message.
pub proof fn lemma_server_command_round_trip(c: ServerCommandModel)
    ensures
        server_command_of(server_command_json(c)) == Some(c),
{
    reveal_with_fuel(lookup, 5);
    lemma_keys_differ();
    lemma_server_tags_differ();
    match c {
        ServerCommandModel::Action { id, name, data } => {
            let ms = server_command_json(c)->Object_0;
            let d = ms[1].1->Object_0;
            assert(ms.drop_first() == seq![ms[1]]);
            assert(d.drop_first() == d.subrange(1, d.len() as int));
            assert(d.drop_first().drop_first() == d.subrange(2, d.len() as int));
            if data is Some {
                assert(d.drop_first().drop_first() == seq![d[2]]);
            } else {
                assert(d.drop_first().drop_first().len() == 0);
            }
        },
        ServerCommandModel::GracefulShutdown { wants_shutdown } => {
            let ms = server_command_json(c)->Object_0;
            assert(ms.drop_first() == seq![ms[1]]);
        },
        _ => {},
    }
}

// ---- writing ----

fn key(k: &str) -> (r: String)
    ensures
        r@ == k@,
{
    String::from_str(k)
}

fn push_member(ms: &mut Vec<(String, JsonValue)>, k: &str, v: JsonValue)
    ensures
        members_view(final(ms)@) == members_view(old(ms)@).push((k@, v@)),
{
    let e = (key(k), v);
    proof {
        lemma_members_view_push(ms@, e);
    }
    ms.push(e);
}

fn no_members() -> (r: Vec<(String, JsonValue)>)
    ensures
        members_view(r@) == Seq::<(Seq<char>, Json)>::empty(),
{
    let r: Vec<(String, JsonValue)> = Vec::new();
    assert(members_view(r@) == Seq::<(Seq<char>, Json)>::empty());
    r
}

fn text_value(s: &String) -> (r: JsonValue)
    ensures
        r@ == Json::Str(s@),
{
    JsonValue::Str(s.clone())
}

fn opt_text_value(o: &Option<String>) -> (r: JsonValue)
    ensures
        r@ == opt_text_json(opt_text(*o)),
{
    match o {
        Some(s) => JsonValue::Str(s.clone()),
        None => JsonValue::Null,
    }
}

fn opt_flag_value(o: Option<bool>) -> (r: JsonValue)
    ensures
        r@ == opt_flag_json(o),
{
    match o {
        Some(b) => JsonValue::Bool(b),
        None => JsonValue::Null,
    }
}

fn texts_value(v: &Vec<String>) -> (r: JsonValue)
    ensures
        r@ == texts_json(texts_view(v@)),
{
    let mut out: Vec<JsonValue> = Vec::new();
    let mut i: usize = 0;
    while i < v.len()
        invariant
            i <= v@.len(),
            items_view(out@) == Seq::new(i as nat, |j: int| Json::Str(v@[j]@)),
        decreases v@.len() - i,
    {
        let x = JsonValue::Str(v[i].clone());
        proof {
            lemma_items_view_push(out@, x);
        }
        out.push(x);
        i = i + 1;
        assert(items_view(out@) == Seq::new(i as nat, |j: int| Json::Str(v@[j]@)));
    }
    assert(items_view(out@) == texts_view(v@).map_values(|n: Seq<char>| Json::Str(n)));
    JsonValue::Array(out)
}

impl Action {
    /// The JSON form of this descriptor.
    pub fn to_json(&self) -> (r: JsonValue)
        ensures
            r@ == action_json(self@),
    {
        let mut ms = no_members();
        push_member(&mut ms, "name", text_value(&self.name));
        push_member(&mut ms, "description", text_value(&self.description));
        push_member(&mut ms, "schema", self.schema.duplicate());
        assert(members_view(ms@) =~= action_json(self@)->Object_0);
        JsonValue::Object(ms)
    }
}

fn actions_value(v: &Vec<Action>) -> (r: JsonValue)
    ensures
        r@ == actions_json(actions_view(v@)),
{
    let mut out: Vec<JsonValue> = Vec::new();
    let mut i: usize = 0;
    while i < v.len()
        invariant
            i <= v@.len(),
            items_view(out@) == Seq::new(i as nat, |j: int| action_json(v@[j]@)),
        decreases v@.len() - i,
    {
        let x = v[i].to_json();
        proof {
            lemma_items_view_push(out@, x);
        }
        out.push(x);
        i = i + 1;
        assert(items_view(out@) == Seq::new(i as nat, |j: int| action_json(v@[j]@)));
    }
    assert(items_view(out@) == actions_view(v@).map_values(|a: ActionModel| action_json(a)));
    JsonValue::Array(out)
}

/// The members `command` and `data` of a tagged command.
fn tagged_members(tag: &str, data: Vec<(String, JsonValue)>) -> (r: Vec<(String, JsonValue)>)
    ensures
        members_view(r@) == tagged(tag@, members_view(data@)),
{
    let mut ms = no_members();
    push_member(&mut ms, "command", JsonValue::Str(key(tag)));
    push_member(&mut ms, "data", JsonValue::Object(data));
    assert(members_view(ms@) =~= tagged(tag@, members_view(data@)));
    ms
}

/// The member `command` of a command without fields.
fn bare_members(tag: &str) -> (r: Vec<(String, JsonValue)>)
    ensures
        members_view(r@) == bare(tag@),
{
    let mut ms = no_members();
    push_member(&mut ms, "command", JsonValue::Str(key(tag)));
    assert(members_view(ms@) =~= bare(tag@));
    ms
}

impl ClientCommandContents {
    /// The members that carry this command.
    fn members(&self) -> (r: Vec<(String, JsonValue)>)
        ensures
            members_view(r@) == contents_members(self@),
    {
        match self {
            ClientCommandContents::Startup => bare_members("startup"),
            ClientCommandContents::Context { message, silent } => {
                let mut d = no_members();
                push_member(&mut d, "message", text_value(message));
                push_member(&mut d, "silent", JsonValue::Bool(*silent));
                assert(members_view(d@) =~= seq![("message"@, Json::Str(message@)), ("silent"@, Json::Bool(*silent))]);
                tagged_members("context", d)
            },
            ClientCommandContents::RegisterActions { actions } => {
                let mut d = no_members();
                push_member(&mut d, "actions", actions_value(actions));
                assert(members_view(d@) =~= seq![("actions"@, actions_json(actions_view(actions@)))]);
                tagged_members("actions/register", d)
            },
            ClientCommandContents::UnregisterActions { action_names } => {
                let mut d = no_members();
                push_member(&mut d, "action_names", texts_value(action_names));
                assert(members_view(d@) =~= seq![("action_names"@, texts_json(texts_view(action_names@)))]);
                tagged_members("actions/unregister", d)
            },
            ClientCommandContents::ForceActions { state, query, ephemeral_context, action_names } => {
                let mut d = no_members();
                push_member(&mut d, "state", opt_text_value(state));
                push_member(&mut d, "query", text_value(query));
                push_member(&mut d, "ephemeral_context", opt_flag_value(*ephemeral_context));
                push_member(&mut d, "action_names", texts_value(action_names));
                assert(members_view(d@) =~= seq![
                    ("state"@, opt_text_json(opt_text(*state))),
                    ("query"@, Json::Str(query@)),
                    ("ephemeral_context"@, opt_flag_json(*ephemeral_context)),
                    ("action_names"@, texts_json(texts_view(action_names@))),
                ]);
                tagged_members("actions/force", d)
            },
            ClientCommandContents::ActionResult { id, success, message } => {
                let mut d = no_members();
                push_member(&mut d, "id", text_value(id));
                push_member(&mut d, "success", JsonValue::Bool(*success));
                push_member(&mut d, "message", opt_text_value(message));
                assert(members_view(d@) =~= seq![
                    ("id"@, Json::Str(id@)),
                    ("success"@, Json::Bool(*success)),
                    ("message"@, opt_text_json(opt_text(*message))),
                ]);
                tagged_members("actions/result", d)
            },
            ClientCommandContents::ShutdownReady => bare_members("shutdown/ready"),
        }
    }
}

impl ClientCommand {
    /// The JSON form of this message.
    pub fn to_json(&self) -> (r: JsonValue)
        ensures
            r@ == client_command_json(self@),
    {
        let mut ms = self.command.members();
        push_member(&mut ms, "game", text_value(&self.game));
        JsonValue::Object(ms)
    }

    /// This message as compact JSON text.
    pub fn to_text(&self) -> (r: String)
        ensures
            r@ == text_of(client_command_json(self@)),
    {
        self.to_json().to_text()
    }
}

impl ServerCommand {
    /// The JSON form of this message.
    pub fn to_json(&self) -> (r: JsonValue)
        ensures
            r@ == server_command_json(self@),
    {
        match self {
            ServerCommand::Action { id, name, data } => {
                let mut d = no_members();
                push_member(&mut d, "id", text_value(id));
                push_member(&mut d, "name", text_value(name));
                match data {
                    Some(x) => {
                        push_member(&mut d, "data", text_value(x));
                        assert(members_view(d@) =~= seq![
                            ("id"@, Json::Str(id@)),
                            ("name"@, Json::Str(name@)),
                            ("data"@, Json::Str(x@)),
                        ]);
                    },
                    None => {
                        assert(members_view(d@) =~= seq![
                            ("id"@, Json::Str(id@)),
                            ("name"@, Json::Str(name@)),
                        ]);
                    },
                }
                JsonValue::Object(tagged_members("action", d))
            },
            ServerCommand::ReregisterAllActions => JsonValue::Object(
                bare_members("actions/reregister_all"),
            ),
            ServerCommand::GracefulShutdown { wants_shutdown } => {
                let mut d = no_members();
                push_member(&mut d, "wants_shutdown", JsonValue::Bool(*wants_shutdown));
                assert(members_view(d@) =~= seq![("wants_shutdown"@, Json::Bool(*wants_shutdown))]);
                JsonValue::Object(tagged_members("shutdown/graceful", d))
            },
            ServerCommand::ImmediateShutdown => JsonValue::Object(
                bare_members("shutdown/immediate"),
            ),
        }
    }

    /// This message as compact JSON text.
    pub fn to_text(&self) -> (r: String)
        ensures
            r@ == text_of(server_command_json(self@)),
    {
        self.to_json().to_text()
    }
}

// ---- reading ----

fn text_at(ms: &Vec<(String, JsonValue)>, k: &str) -> (r: Option<String>)
    ensures
        opt_text(r) == as_text(lookup(members_view(ms@), k@)),
{
    match member(ms, k) {
        Some(JsonValue::Str(s)) => Some(s.clone()),
        _ => None,
    }
}

fn flag_at(ms: &Vec<(String, JsonValue)>, k: &str) -> (r: Option<bool>)
    ensures
        r == as_flag(lookup(members_view(ms@), k@)),
{
    match member(ms, k) {
        Some(JsonValue::Bool(b)) => Some(*b),
        _ => None,
    }
}

fn opt_text_at(ms: &Vec<(String, JsonValue)>, k: &str) -> (r: Option<Option<String>>)
    ensures
        match r {
            Some(o) => as_opt_text(lookup(members_view(ms@), k@)) == Some(opt_text(o)),
            None => as_opt_text(lookup(members_view(ms@), k@)) is None,
        },
{
    match member(ms, k) {
        None => Some(None),
        Some(JsonValue::Null) => Some(None),
        Some(JsonValue::Str(s)) => Some(Some(s.clone())),
        _ => None,
    }
}

fn opt_flag_at(ms: &Vec<(String, JsonValue)>, k: &str) -> (r: Option<Option<bool>>)
    ensures
        r == as_opt_flag(lookup(members_view(ms@), k@)),
{
    match member(ms, k) {
        None => Some(None),
        Some(JsonValue::Null) => Some(None),
        Some(JsonValue::Bool(b)) => Some(Some(*b)),
        _ => None,
    }
}

fn texts_at(ms: &Vec<(String, JsonValue)>, k: &str) -> (r: Option<Vec<String>>)
    ensures
        match r {
            Some(v) => as_texts(lookup(members_view(ms@), k@)) == Some(texts_view(v@)),
            None => as_texts(lookup(members_view(ms@), k@)) is None,
        },
{
    match member(ms, k) {
        Some(JsonValue::Array(items)) => {
            let ghost xs = items_view(items@);
            proof {
                lemma_items_view(items@);
            }
            let mut out: Vec<String> = Vec::new();
            let mut i: usize = 0;
            while i < items.len()
                invariant
                    i <= items@.len() == xs.len(),
                    xs == items_view(items@),
                    forall|j: int| 0 <= j < items@.len() ==> #[trigger] xs[j] == items@[j]@,
                    forall|j: int| 0 <= j < i ==> (#[trigger] xs[j]) is Str,
                    out@.len() == i,
                    forall|j: int| 0 <= j < i ==> (#[trigger] out@[j])@ == xs[j]->Str_0,
                    lookup(members_view(ms@), k@) == Some(Json::Array(xs)),
                decreases items@.len() - i,
            {
                match &items[i] {
                    JsonValue::Str(s) => {
                        out.push(s.clone());
                        i = i + 1;
                    },
                    _ => {
                        assert(!(xs[i as int] is Str));
                        return None;
                    },
                }
            }
            assert(texts_view(out@) =~= xs.map_values(|x: Json| x->Str_0));
            Some(out)
        },
        _ => None,
    }
}

impl Action {
    /// The descriptor that a JSON value holds, if any; an absent schema is `{}`.
    pub fn from_json(j: &JsonValue) -> (r: Option<Action>)
        ensures
            match r {
                Some(a) => as_action(j@) == Some(a@),
                None => as_action(j@) is None,
            },
    {
        match j {
            JsonValue::Object(ms) => {
                let name = text_at(ms, "name");
                let description = text_at(ms, "description");
                match (name, description) {
                    (Some(name), Some(description)) => {
                        let schema = match member(ms, "schema") {
                            Some(s) => s.duplicate(),
                            None => JsonValue::Object(no_members()),
                        };
                        Some(Action { name, description, schema })
                    },
                    _ => None,
                }
            },
            _ => None,
        }
    }
}

fn actions_at(ms: &Vec<(String, JsonValue)>, k: &str) -> (r: Option<Vec<Action>>)
    ensures
        match r {
            Some(v) => as_actions(lookup(members_view(ms@), k@)) == Some(actions_view(v@)),
            None => as_actions(lookup(members_view(ms@), k@)) is None,
        },
{
    match member(ms, k) {
        Some(JsonValue::Array(items)) => {
            let ghost xs = items_view(items@);
            proof {
                lemma_items_view(items@);
            }
            let mut out: Vec<Action> = Vec::new();
            let mut i: usize = 0;
            while i < items.len()
                invariant
                    i <= items@.len() == xs.len(),
                    xs == items_view(items@),
                    forall|j: int| 0 <= j < items@.len() ==> #[trigger] xs[j] == items@[j]@,
                    forall|j: int| 0 <= j < i ==> (#[trigger] as_action(xs[j])) is Some,
                    out@.len() == i,
                    forall|j: int| 0 <= j < i ==> (#[trigger] out@[j])@ == as_action(xs[j])->0,
                    lookup(members_view(ms@), k@) == Some(Json::Array(xs)),
                decreases items@.len() - i,
            {
                match Action::from_json(&items[i]) {
                    Some(a) => {
                        out.push(a);
                        i = i + 1;
                    },
                    None => {
                        assert(as_action(xs[i as int]) is None);
                        return None;
                    },
                }
            }
            assert(actions_view(out@) =~= xs.map_values(|x: Json| as_action(x)->0));
            Some(out)
        },
        _ => None,
    }
}

fn data_at(ms: &Vec<(String, JsonValue)>) -> (r: Option<&Vec<(String, JsonValue)>>)
    ensures
        match r {
            Some(d) => data_of(members_view(ms@)) == Some(members_view(d@)),
            None => data_of(members_view(ms@)) is None,
        },
{
    match member(ms, "data") {
        Some(JsonValue::Object(d)) => Some(d),
        _ => None,
    }
}

fn malformed() -> Error {
    Error::Json(String::from_str("the message is not a protocol envelope"))
}

impl ClientCommandContents {
    fn from_data(tag: &String, d: &Vec<(String, JsonValue)>) -> (r: Result<
        ClientCommandContents,
        Error,
    >)
        ensures
            match r {
                Ok(c) => contents_data(tag@, members_view(d@)) == Some(c@),
                Err(_) => contents_data(tag@, members_view(d@)) is None,
            },
    {
        let t = tag.as_str();
        if text_eq(t, "context") {
            match (text_at(d, "message"), flag_at(d, "silent")) {
                (Some(message), Some(silent)) => Ok(
                    ClientCommandContents::Context { message, silent },
                ),
                _ => Err(malformed()),
            }
        } else if text_eq(t, "actions/register") {
            match actions_at(d, "actions") {
                Some(actions) => Ok(ClientCommandContents::RegisterActions { actions }),
                None => Err(malformed()),
            }
        } else if text_eq(t, "actions/unregister") {
            match texts_at(d, "action_names") {
                Some(action_names) => Ok(ClientCommandContents::UnregisterActions { action_names }),
                None => Err(malformed()),
            }
        } else if text_eq(t, "actions/force") {
            match (
                opt_text_at(d, "state"),
                text_at(d, "query"),
                opt_flag_at(d, "ephemeral_context"),
                texts_at(d, "action_names"),
            ) {
                (Some(state), Some(query), Some(ephemeral_context), Some(action_names)) => Ok(
                    ClientCommandContents::ForceActions {
                        state,
                        query,
                        ephemeral_context,
                        action_names,
                    },
                ),
                _ => Err(malformed()),
            }
        } else if text_eq(t, "actions/result") {
            match (text_at(d, "id"), flag_at(d, "success"), opt_text_at(d, "message")) {
                (Some(id), Some(success), Some(message)) => Ok(
                    ClientCommandContents::ActionResult { id, success, message },
                ),
                _ => Err(malformed()),
            }
        } else {
            Err(malformed())
        }
    }

    fn from_members(ms: &Vec<(String, JsonValue)>) -> (r: Result<ClientCommandContents, Error>)
        ensures
            match r {
                Ok(c) => contents_of(members_view(ms@)) == Some(c@),
                Err(_) => contents_of(members_view(ms@)) is None,
            },
    {
        match text_at(ms, "command") {
            None => Err(malformed()),
            Some(tag) => {
                if text_eq(tag.as_str(), "startup") {
                    Ok(ClientCommandContents::Startup)
                } else if text_eq(tag.as_str(), "shutdown/ready") {
                    Ok(ClientCommandContents::ShutdownReady)
                } else {
                    match data_at(ms) {
                        Some(d) => ClientCommandContents::from_data(&tag, d),
                        None => Err(malformed()),
                    }
                }
            },
        }
    }
}

impl ClientCommand {
    /// The message that a JSON value holds; an error where it holds none.
    pub fn from_json(j: &JsonValue) -> (r: Result<ClientCommand, Error>)
        ensures
            match r {
                Ok(c) => client_command_of(j@) == Some(c@),
                Err(_) => client_command_of(j@) is None,
            },
    {
        match j {
            JsonValue::Object(ms) => {
                let command = ClientCommandContents::from_members(ms);
                let game = text_at(ms, "game");
                match (command, game) {
                    (Ok(command), Some(game)) => Ok(ClientCommand { command, game }),
                    _ => Err(malformed()),
                }
            },
            _ => Err(malformed()),
        }
    }
}

impl ServerCommand {
    /// The message that a JSON value holds; an error where it holds none.
    pub fn from_json(j: &JsonValue) -> (r: Result<ServerCommand, Error>)
        ensures
            match r {
                Ok(c) => server_command_of(j@) == Some(c@),
                Err(_) => server_command_of(j@) is None,
            },
    {
        match j {
            JsonValue::Object(ms) => match text_at(ms, "command") {
                None => Err(malformed()),
                Some(tag) => {
                    let t = tag.as_str();
                    if text_eq(t, "actions/reregister_all") {
                        Ok(ServerCommand::ReregisterAllActions)
                    } else if text_eq(t, "shutdown/immediate") {
                        Ok(ServerCommand::ImmediateShutdown)
                    } else {
                        match data_at(ms) {
                            None => Err(malformed()),
                            Some(d) => if text_eq(t, "action") {
                                match (text_at(d, "id"), text_at(d, "name"), opt_text_at(d, "data")) {
                                    (Some(id), Some(name), Some(data)) => Ok(
                                        ServerCommand::Action { id, name, data },
                                    ),
                                    _ => Err(malformed()),
                                }
                            } else if text_eq(t, "shutdown/graceful") {
                                match flag_at(d, "wants_shutdown") {
                                    Some(wants_shutdown) => Ok(
                                        ServerCommand::GracefulShutdown { wants_shutdown },
                                    ),
                                    None => Err(malformed()),
                                }
                            } else {
                                Err(malformed())
                            },
                        }
                    }
                },
            },
            _ => Err(malformed()),
        }
    }
}

} // verus!
