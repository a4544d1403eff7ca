use neuro_sama::decode::{decode, ActionCase, DecodeError, DecodedAction, Payload, PayloadShape};
use neuro_sama::game::{cleanup_action, Dispatcher, Error, Inbound};
use neuro_sama::json::JsonValue;
use neuro_sama::sanitize::sanitize;
use neuro_sama::schema::{Action, ClientCommand, ClientCommandContents, ServerCommand};
use neuro_sama::tracker::{decimal_text, ControllerState};

fn from_serde(v: &serde_json::Value) -> JsonValue {
    match v {
        serde_json::Value::Null => JsonValue::Null,
        serde_json::Value::Bool(b) => JsonValue::Bool(*b),
        serde_json::Value::Number(n) => JsonValue::Number(n.to_string()),
        serde_json::Value::String(s) => JsonValue::Str(s.clone()),
        serde_json::Value::Array(items) => JsonValue::Array(items.iter().map(from_serde).collect()),
        serde_json::Value::Object(ms) => JsonValue::Object(
            ms.iter().map(|(k, v)| (k.clone(), from_serde(v))).collect(),
        ),
    }
}

fn parse(text: &str) -> JsonValue {
    from_serde(&serde_json::from_str::<serde_json::Value>(text).unwrap())
}

fn read_lenient(text: &str) -> Result<JsonValue, String> {
    json5::from_str::<serde_json::Value>(text)
        .map(|v| from_serde(&v))
        .map_err(|e| e.to_string())
}

fn text_payload(text: &str) -> Payload {
    Payload::Text { text: text.to_string(), parsed: read_lenient(text) }
}

fn s(x: &str) -> String {
    x.to_string()
}

fn num(x: &str) -> JsonValue {
    JsonValue::Number(s(x))
}

fn obj(ms: Vec<(&str, JsonValue)>) -> JsonValue {
    JsonValue::Object(ms.into_iter().map(|(k, v)| (s(k), v)).collect())
}

fn cases() -> Vec<ActionCase> {
    vec![
        ActionCase { name: s("move"), shape: PayloadShape::Fields(vec![s("x"), s("y")]) },
        ActionCase { name: s("shoot"), shape: PayloadShape::Unit },
    ]
}

#[derive(Debug, PartialEq)]
struct Move {
    x: u32,
    y: u32,
}

fn as_move(a: &DecodedAction) -> Move {
    let JsonValue::Object(ms) = &a.value else { panic!("not an object") };
    let field = |k: &str| match &ms.iter().find(|m| m.0 == k).unwrap().1 {
        JsonValue::Number(n) => n.parse::<u32>().unwrap(),
        _ => panic!("not a number"),
    };
    Move { x: field("x"), y: field("y") }
}

fn action(name: &str, description: &str, schema: JsonValue) -> Action {
    Action { name: s(name), description: s(description), schema }
}

#[test]
fn test() {
    let c = cases();
    let action = decode(&c, "move", Payload::Text {
        text: s(r#"{"x":5,"y":6}"#),
        parsed: Ok(parse(r#"{"x":5,"y":6}"#)),
    })
    .unwrap();
    assert_eq!(action.name, "move");
    assert_eq!(as_move(&action), Move { x: 5, y: 6 });
    let action = decode(&c, "shoot", text_payload("null")).unwrap();
    assert_eq!(action, DecodedAction { index: 1, name: s("shoot"), value: JsonValue::Null });
}

#[test]
fn test_action_roundtrip() {
    const SAMPLE1: &str = r#"{"name":"test","description":"abcd","schema":{}}"#;
    const SAMPLE2: &str = r#"{"name":"test","description":"abcd"}"#;
    let a = Action::from_json(&parse(SAMPLE1)).unwrap();
    let b = Action::from_json(&parse(SAMPLE2)).unwrap();
    assert_eq!(&a.name, "test");
    assert_eq!(&a.description, "abcd");
    assert_eq!(a, b);
    assert_eq!(&a.to_json().to_text(), SAMPLE1);
    assert_eq!(a.to_json().to_text(), b.to_json().to_text());
    const SAMPLE3: &str = r#"{"name":"test","description":"abcd","schema":{"type":"object","properties":{"test":{"type":"string"}},"required":["test"]}}"#;
    let c = Action::from_json(&parse(SAMPLE3)).unwrap();
    let JsonValue::Object(schema) = &c.schema else { panic!() };
    let get = |ms: &Vec<(String, JsonValue)>, k: &str| -> JsonValue {
        ms.iter().find(|m| m.0 == k).unwrap().1.duplicate()
    };
    assert_eq!(get(schema, "type"), JsonValue::Str(s("object")));
    let JsonValue::Array(required) = get(schema, "required") else { panic!() };
    assert!(required.contains(&JsonValue::Str(s("test"))));
    let JsonValue::Object(properties) = get(schema, "properties") else { panic!() };
    let JsonValue::Object(prop) = get(&properties, "test") else { panic!() };
    assert_eq!(get(&prop, "type"), JsonValue::Str(s("string")));
}

#[test]
fn test_command_roundtrip() {
    let neuro_cmd = ServerCommand::Action { id: s("abcd"), name: s("efgh"), data: None };
    const SAMPLE_ACTION: &str = r#"{"command":"action","data":{"id":"abcd","name":"efgh"}}"#;
    assert_eq!(ServerCommand::from_json(&parse(SAMPLE_ACTION)).unwrap(), neuro_cmd);
    assert_eq!(SAMPLE_ACTION, neuro_cmd.to_text());

    let startup = ClientCommand { game: s("game"), command: ClientCommandContents::Startup };
    const STARTUP: &str = r#"{"command":"startup","game":"game"}"#;
    assert_eq!(ClientCommand::from_json(&parse(STARTUP)).unwrap(), startup);
    assert_eq!(STARTUP, startup.to_text());

    let context = ClientCommand {
        game: s("game"),
        command: ClientCommandContents::Context { message: s("test"), silent: false },
    };
    const CONTEXT: &str =
        r#"{"command":"context","data":{"message":"test","silent":false},"game":"game"}"#;
    assert_eq!(ClientCommand::from_json(&parse(CONTEXT)).unwrap(), context);
    assert_eq!(CONTEXT, context.to_text());
}

fn nested_schema() -> JsonValue {
    parse(
        r##"{"$schema":"http://json-schema.org/draft-07/schema#","title":"Move","description":"d",
            "type":"object","required":["x"],
            "properties":{"title":{"type":"string","title":"T","description":"D"},
                          "x":{"type":"integer","minimum":0.0,"description":"X"}},
            "items":[{"title":"a"},{"description":"b","not":{"title":"c"}}],
            "anyOf":[{"title":"e","type":"null"}],
            "definitions":{"Kept":{"title":"kept"}}}"##,
    )
}

#[test]
fn sanitize_strips_metadata_at_every_depth() {
    let out = sanitize(nested_schema());
    let expected = parse(
        r#"{"type":"object","required":["x"],
            "properties":{"title":{"type":"string"},"x":{"type":"integer","minimum":0.0}},
            "items":[{},{"not":{}}],
            "anyOf":[{"type":"null"}],
            "definitions":{"Kept":{"title":"kept"}}}"#,
    );
    assert_eq!(out, expected);
}

#[test]
fn sanitize_twice_is_sanitize_once() {
    let once = sanitize(nested_schema());
    let twice = sanitize(once.duplicate());
    assert_eq!(once, twice);
}

#[test]
fn sanitize_drops_a_null_root_type() {
    let out = sanitize(obj(vec![("type", JsonValue::Str(s("null"))), ("title", JsonValue::Str(s("Shoot")))]));
    assert_eq!(out, JsonValue::Object(vec![]));
    let kept = sanitize(obj(vec![("type", JsonValue::Str(s("string")))]));
    assert_eq!(kept, obj(vec![("type", JsonValue::Str(s("string")))]));
}

#[test]
fn cleanup_action_keeps_name_and_description() {
    let mut a = action("move", "Move somewhere", obj(vec![("title", JsonValue::Str(s("Move"))), ("type", JsonValue::Str(s("object")))]));
    cleanup_action(&mut a);
    assert_eq!(a, action("move", "Move somewhere", obj(vec![("type", JsonValue::Str(s("object")))])));
}

#[test]
fn every_envelope_survives_text() {
    let clients = vec![
        ClientCommandContents::Startup,
        ClientCommandContents::Context { message: s("he said \"hi\"\n"), silent: true },
        ClientCommandContents::RegisterActions {
            actions: vec![action("move", "Move", obj(vec![("type", JsonValue::Str(s("object")))]))],
        },
        ClientCommandContents::UnregisterActions { action_names: vec![s("move"), s("shoot")] },
        ClientCommandContents::ForceActions {
            state: None,
            query: s("go"),
            ephemeral_context: None,
            action_names: vec![s("move")],
        },
        ClientCommandContents::ForceActions {
            state: Some(s("board")),
            query: s("go"),
            ephemeral_context: Some(true),
            action_names: vec![],
        },
        ClientCommandContents::ActionResult { id: s("7"), success: false, message: None },
        ClientCommandContents::ActionResult { id: s("8"), success: true, message: Some(s("ok")) },
        ClientCommandContents::ShutdownReady,
    ];
    for command in clients {
        let c = ClientCommand { command, game: s("Test Game") };
        let back = ClientCommand::from_json(&parse(&c.to_text())).unwrap();
        assert_eq!(back, c);
    }
    let servers = vec![
        ServerCommand::Action { id: s("1"), name: s("move"), data: Some(s("{x: 1}")) },
        ServerCommand::Action { id: s("2"), name: s("shoot"), data: None },
        ServerCommand::ReregisterAllActions,
        ServerCommand::GracefulShutdown { wants_shutdown: true },
        ServerCommand::ImmediateShutdown,
    ];
    for c in servers {
        let back = ServerCommand::from_json(&parse(&c.to_text())).unwrap();
        assert_eq!(back, c);
    }
}

#[test]
fn force_and_result_text() {
    let d = Dispatcher::new(s("game"));
    let force = d.force_actions_raw(s("go"), vec![s("move")]).with_state(s("st")).send();
    assert_eq!(
        force.to_text(),
        r#"{"command":"actions/force","data":{"state":"st","query":"go","ephemeral_context":null,"action_names":["move"]},"game":"game"}"#
    );
    let result = d.action_result(s("3"), Err(None));
    assert_eq!(
        result.to_text(),
        r#"{"command":"actions/result","data":{"id":"3","success":false,"message":null},"game":"game"}"#
    );
}

#[test]
fn strings_are_escaped_when_written() {
    let v = JsonValue::Str(s("a\"b\\c\n"));
    assert_eq!(v.to_text(), r#""a\"b\\c\n""#);
}

#[test]
fn malformed_envelopes_are_refused() {
    assert!(matches!(ServerCommand::from_json(&parse(r#"{"command":"teleport"}"#)), Err(Error::Json(_))));
    assert!(matches!(ServerCommand::from_json(&parse(r#"{"command":"action","data":{"id":1,"name":"x"}}"#)), Err(Error::Json(_))));
    assert!(matches!(ClientCommand::from_json(&parse(r#"{"command":"startup"}"#)), Err(Error::Json(_))));
    assert!(matches!(ClientCommand::from_json(&parse("[]")), Err(Error::Json(_))));
}

#[test]
fn decode_absent_payload_as_unit() {
    let action = decode(&cases(), "shoot", Payload::Absent).unwrap();
    assert_eq!(action, DecodedAction { index: 1, name: s("shoot"), value: JsonValue::Null });
}

#[test]
fn decode_lenient_text() {
    let action = decode(&cases(), "move", text_payload("{x: 5, y: 6,}")).unwrap();
    assert_eq!(as_move(&action), Move { x: 5, y: 6 });
}

#[test]
fn decode_unknown_action() {
    let c = cases();
    assert_eq!(decode(&c, "teleport", Payload::Absent), Err(DecodeError::UnknownAction(s("teleport"))));
    assert_eq!(
        decode(&c, "teleport", text_payload(r#"{"x":5,"y":6}"#)),
        Err(DecodeError::UnknownAction(s("teleport")))
    );
}

#[test]
fn decode_blank_or_empty_object_as_unit() {
    let c = cases();
    for text in ["   ", "{}", " { } \n"] {
        let action = decode(&c, "shoot", text_payload(text)).unwrap();
        assert_eq!(action, DecodedAction { index: 1, name: s("shoot"), value: JsonValue::Null });
    }
}

#[test]
fn decode_reports_a_missing_field() {
    let c = cases();
    assert_eq!(
        decode(&c, "move", text_payload("{x: 5}")),
        Err(DecodeError::Malformed(s("missing field `y`")))
    );
    assert_eq!(
        decode(&c, "move", Payload::Absent),
        Err(DecodeError::Malformed(s("invalid type: expected an object")))
    );
    assert_eq!(
        decode(&c, "move", text_payload("{}")),
        Err(DecodeError::Malformed(s("missing field `x`")))
    );
    assert_eq!(
        decode(&c, "shoot", text_payload("5")),
        Err(DecodeError::Malformed(s("invalid type: expected null")))
    );
}

#[test]
fn decode_keeps_the_reader_error() {
    let c = cases();
    let r = decode(&c, "move", Payload::Text { text: s("{x:"), parsed: Err(s("unexpected end")) });
    assert_eq!(r, Err(DecodeError::Malformed(s("unexpected end"))));
}

#[test]
fn malformed_payload_gets_one_failed_result() {
    let d = Dispatcher::new(s("game"));
    let cmd = ServerCommand::Action { id: s("42"), name: s("move"), data: Some(s("{x:")) };
    let parsed = read_lenient("{x:");
    let reader_error = parsed.as_ref().unwrap_err().clone();
    let Inbound::Reply(reply) = d.handle_message(&cases(), cmd, parsed) else {
        panic!("the handler must not be called")
    };
    let ClientCommandContents::ActionResult { id, success, message } = reply.command else { panic!() };
    assert_eq!(id, "42");
    assert!(!success);
    assert_eq!(
        message.unwrap(),
        format!("Failed to deserialize Neuro-provided action data: {reader_error}")
    );
    assert_eq!(reply.game, "game");
}

#[test]
fn unknown_action_gets_one_failed_result() {
    let d = Dispatcher::new(s("game"));
    let cmd = ServerCommand::Action { id: s("1"), name: s("teleport"), data: None };
    let r = d.handle_message(&cases(), cmd, Ok(JsonValue::Null));
    let expected = d.action_result(
        s("1"),
        Err(Some(s("Failed to deserialize Neuro-provided action data: unexpected action: `teleport`"))),
    );
    assert_eq!(r, Inbound::Reply(expected));
}

#[test]
fn decodable_action_is_handed_to_the_host() {
    let d = Dispatcher::new(s("game"));
    let cmd = ServerCommand::Action { id: s("9"), name: s("move"), data: Some(s("{x:1,y:2}")) };
    let r = d.handle_message(&cases(), cmd, read_lenient("{x:1,y:2}"));
    let Inbound::Invoke { id, action } = r else { panic!() };
    assert_eq!(id, "9");
    assert_eq!(as_move(&action), Move { x: 1, y: 2 });
    let ok = d.action_result(id, Ok(Some(s("done"))));
    assert_eq!(
        ok.command,
        ClientCommandContents::ActionResult { id: s("9"), success: true, message: Some(s("done")) }
    );
}

#[test]
fn control_requests_are_passed_on() {
    let d = Dispatcher::new(s("game"));
    assert_eq!(d.handle_message(&cases(), ServerCommand::ReregisterAllActions, Ok(JsonValue::Null)), Inbound::ReregisterActions);
    assert_eq!(
        d.handle_message(&cases(), ServerCommand::GracefulShutdown { wants_shutdown: true }, Ok(JsonValue::Null)),
        Inbound::GracefulShutdown(true)
    );
    assert_eq!(d.handle_message(&cases(), ServerCommand::ImmediateShutdown, Ok(JsonValue::Null)), Inbound::ImmediateShutdown);
}

#[test]
fn dispatcher_envelopes() {
    let d = Dispatcher::new(s("Test Game"));
    assert_eq!(d.initialize().to_text(), r#"{"command":"startup","game":"Test Game"}"#);
    let reg = d.register_actions_raw(vec![
        action("move", "Move", obj(vec![("$schema", JsonValue::Str(s("x"))), ("title", JsonValue::Str(s("Move"))), ("type", JsonValue::Str(s("object")))])),
        action("shoot", "Shoot", obj(vec![("type", JsonValue::Str(s("null")))])),
    ]);
    assert_eq!(
        reg.to_text(),
        r#"{"command":"actions/register","data":{"actions":[{"name":"move","description":"Move","schema":{"type":"object"}},{"name":"shoot","description":"Shoot","schema":{}}]},"game":"Test Game"}"#
    );
    let unreg = d.unregister_actions_raw(vec![s("move")]);
    assert_eq!(unreg.to_text(), r#"{"command":"actions/unregister","data":{"action_names":["move"]},"game":"Test Game"}"#);
    let ctx = d.context(s("hello"), true);
    assert_eq!(ctx.to_text(), r#"{"command":"context","data":{"message":"hello","silent":true},"game":"Test Game"}"#);
}

fn register(t: &mut ControllerState, names: &[&str]) {
    let actions = names.iter().map(|n| action(n, "d", JsonValue::Object(vec![]))).collect();
    t.update(ClientCommand { command: ClientCommandContents::RegisterActions { actions }, game: s("g") });
}

#[test]
fn force_request_tracking() {
    let mut t = ControllerState::new();
    register(&mut t, &["move", "shoot", "wait"]);
    t.update(ClientCommand {
        command: ClientCommandContents::ForceActions {
            state: None,
            query: s("go"),
            ephemeral_context: None,
            action_names: vec![s("move"), s("shoot")],
        },
        game: s("g"),
    });
    assert!(t.force_query.is_some());
    assert_eq!(t.selectable, vec![s("move"), s("shoot")]);
    t.select(s("move"));
    let sent = t.send(s("{x:1,y:2}"));
    assert_eq!(sent, ServerCommand::Action { id: s("0"), name: s("move"), data: Some(s("{x:1,y:2}")) });
    assert_eq!(t.force_query.as_ref().unwrap().correlation_id, Some(s("0")));
    let result = |id: &str, success: bool| ClientCommand {
        command: ClientCommandContents::ActionResult { id: s(id), success, message: None },
        game: s("g"),
    };
    t.update(result("7", true));
    assert!(t.force_query.is_some());
    t.update(result("0", false));
    assert!(t.force_query.is_some());
    assert_eq!(t.last_message, "failure: ");
    register(&mut t, &["jump"]);
    assert!(t.force_query.is_some());
    t.update(result("0", true));
    assert!(t.force_query.is_none());
    assert_eq!(t.selectable, vec![s("move"), s("shoot"), s("wait"), s("jump")]);
    assert_eq!(t.last_message, "success: ");
}

#[test]
fn tracker_registry_updates() {
    let mut t = ControllerState::new();
    register(&mut t, &["a", "b", "a"]);
    assert_eq!(t.actions.len(), 2);
    t.select(s("b"));
    t.update(ClientCommand {
        command: ClientCommandContents::UnregisterActions { action_names: vec![s("b"), s("zzz")] },
        game: s("g"),
    });
    assert_eq!(t.selectable, vec![s("a")]);
    assert_eq!(t.selected_action, None);
    t.update(ClientCommand {
        command: ClientCommandContents::Context { message: s("ctx"), silent: true },
        game: s("g"),
    });
    assert_eq!((t.context.as_str(), t.silent), ("ctx", true));
}

#[test]
fn ids_are_decimal() {
    assert_eq!(decimal_text(0), "0");
    assert_eq!(decimal_text(1234567890), "1234567890");
    assert_eq!(decimal_text(u32::MAX), "4294967295");
}
