use cloudstate::dispatch::{
    begin, outcome_of, respond, Action, Body, Caught, Outcome, Response, ResultSlot,
};
use cloudstate::script::wrap_script;
use cloudstate::server::{
    route_path_for, ClassDef, Compiled, Resolution, ServerSlot, ServerState, Verb,
};
use cloudstate::store::StoreError;
use cloudstate::watch::{should_reload, ChangeKind};

fn class(name: &str, methods: &[&str]) -> ClassDef {
    ClassDef { name: name.to_string(), methods: methods.iter().map(|m| m.to_string()).collect() }
}

fn compiled(script: &str, classes: Vec<ClassDef>) -> Compiled {
    Compiled { script: script.to_string(), classes }
}

fn invoke(class: &str, method: &str) -> Resolution {
    Resolution::Invoke { class: class.to_string(), method: method.to_string() }
}

#[test]
fn wrap_script_exact_text() {
    let expected = "try {\n                    x = 1;\n                } catch (e) {\n                    globalThis.result = {\n                        error: {\n                            message: e.message,\n                            stack: e.stack,\n                        }\n                    }\n                }";
    assert_eq!(wrap_script("x = 1;"), expected);
}

#[test]
fn wrap_script_matches_formatted_template() {
    let script = "const o = cloudstate.getRoot('t');\nglobalThis.result = o;";
    let formatted = format!(
        "try {{
                    {script}
                }} catch (e) {{
                    globalThis.result = {{
                        error: {{
                            message: e.message,
                            stack: e.stack,
                        }}
                    }}
                }}"
    );
    assert_eq!(wrap_script(script), formatted);
}

#[test]
fn wrap_empty_script() {
    let text = wrap_script("");
    assert!(text.starts_with("try {\n"));
    assert!(text.contains("} catch (e) {"));
    assert!(text.ends_with("}"));
}

#[test]
fn route_path_scheme() {
    assert_eq!(route_path_for("Counter", "increment"), "/Counter/increment");
}

#[test]
fn build_derives_one_route_per_method() {
    let state = ServerState::build(compiled("v1", vec![
        class("Counter", &["increment", "get"]),
        class("Empty", &[]),
        class("Todo", &["add"]),
    ]));
    assert_eq!(state.route_count(), 3);
    assert_eq!(state.route_path_at(0), "/Counter/increment");
    assert_eq!(state.route_path_at(1), "/Counter/get");
    assert_eq!(state.route_path_at(2), "/Todo/add");
}

#[test]
fn empty_script_has_no_routes() {
    let state = ServerState::build(compiled("", Vec::new()));
    assert_eq!(state.route_count(), 0);
    assert_eq!(state.resolve(Verb::Post, "/Counter/get"), Resolution::NotFound);
    assert_eq!(state.resolve(Verb::Get, "/cloudstate/status"), Resolution::Status);
}

#[test]
fn resolve_finds_binding() {
    let state = ServerState::build(compiled("v1", vec![class("Counter", &["increment", "get"]), class("Todo", &["add"])]));
    assert_eq!(state.resolve(Verb::Post, "/Counter/get"), invoke("Counter", "get"));
    assert_eq!(state.resolve(Verb::Get, "/Todo/add"), invoke("Todo", "add"));
    assert_eq!(state.resolve(Verb::Put, "/Counter/increment"), invoke("Counter", "increment"));
    assert_eq!(state.resolve(Verb::Patch, "/Counter/increment"), invoke("Counter", "increment"));
    assert_eq!(state.resolve(Verb::Delete, "/Counter/increment"), invoke("Counter", "increment"));
}

#[test]
fn resolve_unknown_path_is_not_found() {
    let state = ServerState::build(compiled("v1", vec![class("Counter", &["get"])]));
    assert_eq!(state.resolve(Verb::Post, "/Counter/missing"), Resolution::NotFound);
    assert_eq!(state.resolve(Verb::Post, "/Counter/get/"), Resolution::NotFound);
    assert_eq!(state.resolve(Verb::Post, "Counter/get"), Resolution::NotFound);
    assert_eq!(state.resolve(Verb::Post, ""), Resolution::NotFound);
}

#[test]
fn every_method_falls_through_to_the_routes() {
    let state = ServerState::build(compiled("v1", vec![class("Counter", &["get"])]));
    assert_eq!(state.resolve(Verb::Other, "/Counter/get"), invoke("Counter", "get"));
    assert_eq!(state.resolve(Verb::Other, "/Counter/missing"), Resolution::NotFound);
    assert_eq!(state.resolve(Verb::Other, "/cloudstate/status"), Resolution::NotFound);
}

#[test]
fn status_endpoint_answers_get_only() {
    let state = ServerState::build(compiled("v1", vec![class("cloudstate", &["status"])]));
    assert_eq!(state.resolve(Verb::Get, "/cloudstate/status"), Resolution::Status);
    assert_eq!(state.resolve(Verb::Post, "/cloudstate/status"), invoke("cloudstate", "status"));
}

#[test]
fn first_route_wins_on_equal_paths() {
    let state = ServerState::build(compiled("v1", vec![class("a/b", &["c"]), class("a", &["b/c"])]));
    assert_eq!(state.resolve(Verb::Post, "/a/b/c"), invoke("a/b", "c"));
}

#[test]
fn reload_swaps_whole_state() {
    let mut slot = ServerSlot::new(compiled("v1", vec![class("Counter", &["get"])]));
    assert_eq!(slot.resolve(Verb::Post, "/Counter/get"), invoke("Counter", "get"));
    assert_eq!(slot.reload(Ok(compiled("v2", vec![class("Todo", &["add"])]))), Ok(()));
    assert_eq!(slot.resolve(Verb::Post, "/Counter/get"), Resolution::NotFound);
    assert_eq!(slot.resolve(Verb::Post, "/Todo/add"), invoke("Todo", "add"));
    assert_eq!(slot.script(), "v2");
}

#[test]
fn rejected_reload_keeps_previous_routes() {
    let mut slot = ServerSlot::new(compiled("v1", vec![class("Counter", &["get"])]));
    let r = slot.reload(Err("SyntaxError: Unexpected token".to_string()));
    assert_eq!(r.unwrap_err().message, "SyntaxError: Unexpected token");
    assert_eq!(slot.resolve(Verb::Post, "/Counter/get"), invoke("Counter", "get"));
    assert_eq!(slot.resolve(Verb::Get, "/cloudstate/status"), Resolution::Status);
    assert_eq!(slot.script(), "v1");
}

#[test]
fn reload_after_rejection_is_applied() {
    let mut slot = ServerSlot::new(compiled("", Vec::new()));
    assert!(slot.reload(Err("bad".to_string())).is_err());
    assert_eq!(slot.reload(Ok(compiled("v2", vec![class("A", &["m"])]))), Ok(()));
    assert_eq!(slot.resolve(Verb::Post, "/A/m"), invoke("A", "m"));
}

#[test]
fn only_create_and_modify_reload() {
    assert!(!should_reload(ChangeKind::Any));
    assert!(!should_reload(ChangeKind::Access));
    assert!(should_reload(ChangeKind::Create));
    assert!(should_reload(ChangeKind::Modify));
    assert!(!should_reload(ChangeKind::Remove));
    assert!(!should_reload(ChangeKind::Other));
}

#[test]
fn respond_to_liveness() {
    let r = respond(Outcome::Alive);
    assert_eq!(r.status, 200);
    assert_eq!(r.body, Body::Text("\"OK\"".to_string()));
}

#[test]
fn respond_with_returned_value() {
    let r = respond(Outcome::Returned("{\"count\":1}".to_string()));
    assert_eq!(r.status, 200);
    assert_eq!(r.body, Body::Text("{\"count\":1}".to_string()));
}

#[test]
fn thrown_error_is_contained() {
    let slot = ServerSlot::new(compiled("v1", vec![class("Counter", &["get", "fail"])]));
    assert_eq!(slot.resolve(Verb::Post, "/Counter/fail"), invoke("Counter", "fail"));
    let r = respond(Outcome::Threw { message: "boom".to_string(), stack: "at fail (1:1)".to_string() });
    assert_eq!(r.status, 500);
    assert_eq!(
        r.body,
        Body::Failure { message: "boom".to_string(), stack: "at fail (1:1)".to_string() }
    );
    assert_eq!(slot.resolve(Verb::Post, "/Counter/get"), invoke("Counter", "get"));
    assert_eq!(respond(Outcome::Returned("1".to_string())).status, 200);
}

#[test]
fn store_failures_are_server_errors() {
    let r = respond(Outcome::StoreFailed(StoreError::Unreachable));
    assert_eq!(r.status, 503);
    assert_eq!(r.body, Body::Failure { message: "store unreachable".to_string(), stack: String::new() });
    let r = respond(Outcome::StoreFailed(StoreError::CommitFailed));
    assert_eq!(r.status, 500);
    assert_eq!(r.body, Body::Failure { message: "commit failed".to_string(), stack: String::new() });
}

#[test]
fn timeout_and_not_found() {
    let r = respond(Outcome::TimedOut);
    assert_eq!(r.status, 504);
    assert_eq!(r.body, Body::Failure { message: "invocation timed out".to_string(), stack: String::new() });
    let r = respond(Outcome::NotFound);
    assert_eq!(r.status, 404);
    assert_eq!(r.body, Body::Text("Not Found".to_string()));
}

#[test]
fn begin_answers_liveness_at_once() {
    let slot = ServerSlot::new(compiled("v1", vec![class("Counter", &["get"])]));
    assert_eq!(
        begin(&slot, Verb::Get, "/cloudstate/status"),
        Action::Answer(Response { status: 200, body: Body::Text("\"OK\"".to_string()) })
    );
}

#[test]
fn begin_answers_unknown_path_at_once() {
    let slot = ServerSlot::new(compiled("v1", vec![class("Counter", &["get"])]));
    assert_eq!(
        begin(&slot, Verb::Post, "/Counter/missing"),
        Action::Answer(Response { status: 404, body: Body::Text("Not Found".to_string()) })
    );
}

#[test]
fn begin_hands_out_binding_and_script_of_one_version() {
    let mut slot = ServerSlot::new(compiled("class Counter {}", vec![class("Counter", &["get"])]));
    assert_eq!(
        begin(&slot, Verb::Post, "/Counter/get"),
        Action::Run {
            script: "class Counter {}".to_string(),
            class: "Counter".to_string(),
            method: "get".to_string(),
        }
    );
    let next = compiled("class Counter { v2 }", vec![class("Counter", &["get", "reset"])]);
    assert_eq!(slot.reload(Ok(next)), Ok(()));
    assert_eq!(
        begin(&slot, Verb::Post, "/Counter/reset"),
        Action::Run {
            script: "class Counter { v2 }".to_string(),
            class: "Counter".to_string(),
            method: "reset".to_string(),
        }
    );
    assert!(slot.reload(Err("SyntaxError".to_string())).is_err());
    assert_eq!(
        begin(&slot, Verb::Post, "/Counter/get"),
        Action::Run {
            script: "class Counter { v2 }".to_string(),
            class: "Counter".to_string(),
            method: "get".to_string(),
        }
    );
}

#[test]
fn result_slot_with_value() {
    let slot = ResultSlot { value: "{\"name\":\"hello world\"}".to_string(), error: None };
    assert_eq!(outcome_of(slot), Outcome::Returned("{\"name\":\"hello world\"}".to_string()));
}

#[test]
fn result_slot_with_caught_error() {
    let slot = ResultSlot {
        value: "{\"error\":{}}".to_string(),
        error: Some(Caught { message: "x is not defined".to_string(), stack: "at <anon>:1".to_string() }),
    };
    assert_eq!(
        outcome_of(slot),
        Outcome::Threw { message: "x is not defined".to_string(), stack: "at <anon>:1".to_string() }
    );
}
