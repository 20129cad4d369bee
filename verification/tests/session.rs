use jesus_twin::agent::{status_for, AgentError, AgentErrorKind};
use jesus_twin::event::Role;
use jesus_twin::session::{session_from_messages, Session, Turn, WireMessage};

fn msg(role: &str, content: &str) -> WireMessage {
    WireMessage { role: role.into(), content: content.into() }
}

#[test]
fn agui_missing_user_is_bad_request() {
    assert!(session_from_messages(&[msg("system", "hi")], 1).is_none());
    assert!(session_from_messages(&[], 1).is_none());
    assert_eq!(status_for(AgentErrorKind::BadRequest), 400);
}

#[test]
fn system_and_tool_messages_are_dropped() {
    let s = session_from_messages(
        &[msg("system", "s"), msg("user", "q"), msg("tool", "t"), msg("assistant", "a")],
        42,
    )
    .unwrap();
    assert_eq!(s.id, 42);
    assert_eq!(s.turns.len(), 2);
    assert_eq!(s.turns[0].role, Role::User);
    assert_eq!(s.turns[1].content, "a");
}

#[test]
fn admission_rejection_maps_to_503() {
    assert_eq!(status_for(AgentErrorKind::Overloaded), 503);
    assert_eq!(status_for(AgentErrorKind::Internal), 500);
    let e = AgentError::new(AgentErrorKind::Overloaded, "busy");
    assert_eq!(e.message, "busy");
}

#[test]
fn memory_scope_prefers_the_user() {
    let anon = Session::new(0xab);
    assert_eq!(anon.memory_scope(), "00000000-0000-0000-0000-0000000000ab");
    let known = Session::new(0xab).with_user(u128::MAX).with_turn(Turn::new(Role::User, "q"));
    assert_eq!(known.memory_scope(), "ffffffff-ffff-ffff-ffff-ffffffffffff");
    assert_eq!(known.turns.len(), 1);
}

#[test]
fn uuid_rendering_matches_the_uuid_crate() {
    let id: u128 = 0x67e5_5044_10b1_426f_9247_bb68_0e5f_e0c8;
    let scope = Session::new(id).memory_scope();
    assert_eq!(scope, "67e55044-10b1-426f-9247-bb680e5fe0c8");
    assert_eq!(scope, uuid::Uuid::from_u128(id).to_string());
}
