use std::sync::mpsc;
use uuid::Uuid;
use ziee_mcp::elicitation::{respond_to_elicitation, ElicitationResponse};
use ziee_mcp::json::Json;
use ziee_mcp::registry::ElicitationRegistry;

fn decline() -> ElicitationResponse {
    ElicitationResponse { action: "decline".into(), content: None }
}

fn new_id() -> u128 {
    Uuid::new_v4().as_u128()
}

#[test]
fn owner_binding_is_fail_closed_until_bound() {
    let mut reg: ElicitationRegistry<mpsc::Sender<ElicitationResponse>> = ElicitationRegistry::new();
    let id = new_id();
    let owner = new_id();
    let stranger = new_id();
    let (tx, _rx) = mpsc::channel::<ElicitationResponse>();

    assert_eq!(reg.owner_matches(id, owner), None);

    reg.register(id, tx, Some(new_id()));
    assert_eq!(reg.owner_matches(id, owner), Some(false));

    reg.bind_owner(id, owner);
    assert_eq!(reg.owner_matches(id, owner), Some(true), "bound owner matches");
    assert_eq!(reg.owner_matches(id, stranger), Some(false), "a different user never matches");

    let (found, _, reply) = reg.respond(id);
    assert!(found);
    let _ = reply.unwrap().send(decline());
}

#[test]
fn respond_delivers_once_and_removes_entry() {
    let mut reg: ElicitationRegistry<mpsc::Sender<ElicitationResponse>> = ElicitationRegistry::new();
    let id = new_id();
    let content_id = new_id();
    let (tx, rx) = mpsc::channel::<ElicitationResponse>();
    reg.register(id, tx, Some(content_id));
    reg.bind_owner(id, new_id());

    let (found, cid, reply) = reg.respond(id);
    assert!(found, "respond finds the registered entry");
    assert_eq!(cid, Some(content_id), "respond returns the content_id");
    reply.expect("the waiting sender").send(decline()).unwrap();
    assert_eq!(rx.recv().unwrap().action, "decline");

    assert_eq!(reg.owner_matches(id, new_id()), None);
    assert_eq!(reg.respond(id).0, false, "second respond finds nothing");
}

#[test]
fn remove_cancels_and_returns_content_id() {
    let mut reg: ElicitationRegistry<mpsc::Sender<ElicitationResponse>> = ElicitationRegistry::new();
    let id = new_id();
    let content_id = new_id();
    let (tx, _rx) = mpsc::channel::<ElicitationResponse>();
    reg.register(id, tx, Some(content_id));

    assert_eq!(reg.remove(id), Some(content_id));
    assert_eq!(reg.owner_matches(id, new_id()), None, "removed → gone");
    reg.bind_owner(id, new_id());
    assert_eq!(reg.owner_matches(id, new_id()), None);
}

#[test]
fn respond_to_elicitation_checks_action_owner_and_content() {
    let mut reg: ElicitationRegistry<mpsc::Sender<ElicitationResponse>> = ElicitationRegistry::new();
    let id = new_id();
    let owner = new_id();
    let row = new_id();
    let (tx, rx) = mpsc::channel::<ElicitationResponse>();
    reg.register(id, tx, Some(row));

    // Invalid action.
    let e = respond_to_elicitation(&mut reg, id, owner, "maybe", None, None).unwrap_err();
    assert_eq!((e.status, e.code.as_str()), (400, "INVALID_ACTION"));
    // Unknown elicitation.
    let e = respond_to_elicitation(&mut reg, new_id(), owner, "decline", None, None).unwrap_err();
    assert_eq!(e.status, 404);
    // Not yet bound: refused for everyone.
    let e = respond_to_elicitation(&mut reg, id, owner, "decline", None, None).unwrap_err();
    assert_eq!(e.status, 403);

    reg.bind_owner(id, owner);
    // Accepted content that is not an object.
    let e = respond_to_elicitation(
        &mut reg,
        id,
        owner,
        "accept",
        Some(Json::Str("x".into())),
        Some(Err("content must be a JSON object".into())),
    )
    .unwrap_err();
    assert_eq!((e.status, e.code.as_str()), (400, "INVALID_CONTENT"));
    assert_eq!(reg.owner_matches(id, owner), Some(true), "a refused answer leaves it pending");

    let decoded = Json::Object(vec![("name".into(), Json::Str("Ann".into()))]);
    let (resp, delivery) = respond_to_elicitation(
        &mut reg,
        id,
        owner,
        "accept",
        Some(Json::Str("{\"name\":\"Ann\"}".into())),
        Some(Ok(Json::Object(vec![("name".into(), Json::Str("Ann".into()))]))),
    )
    .unwrap();
    assert!(resp.success);
    assert_eq!(delivery.status, "accepted");
    assert_eq!(delivery.content_id, Some(row));
    assert_eq!(delivery.response.content, Some(decoded));
    delivery.reply.unwrap().send(delivery.response).unwrap();
    assert_eq!(rx.recv().unwrap().action, "accept");
    // Answered once: now gone.
    let e = respond_to_elicitation(&mut reg, id, owner, "decline", None, None).unwrap_err();
    assert_eq!(e.status, 404);
}
