use betalky::routes::structs::{ReturnedGuild, ReturnedUser, ReturnedUserMe};
use betalky::utils::sse::{broadcast, broadcast_many, SSEClients};
use betalky::utils::structs::SSEEvent;

fn s(text: &str) -> String {
    text.to_string()
}

fn some_guild() -> ReturnedGuild {
    ReturnedGuild {
        id: s("g"),
        name: s("lounge"),
        description: None,
        icon: None,
        public: false,
        roles: vec![],
        members: 1,
        creation: 0,
    }
}

#[test]
fn a_new_registry_is_empty() {
    let registry = SSEClients::new();
    assert_eq!(registry.len(), 0);
    assert!(registry.recipients(&s("alice")).is_empty());
}

#[test]
fn handles_are_issued_in_order_and_once() {
    let mut registry = SSEClients::new();
    assert_eq!(registry.subscribe(s("alice")), Some(0));
    assert_eq!(registry.subscribe(s("bob")), Some(1));
    assert_eq!(registry.subscribe(s("alice")), Some(2));
    assert_eq!(registry.len(), 3);
    broadcast(&mut registry, &s("alice"), &vec![0, 2]);
    assert_eq!(registry.len(), 1);
    // a handle that was retired is not issued again
    assert_eq!(registry.subscribe(s("alice")), Some(3));
    assert_eq!(registry.recipients(&s("alice")), vec![3]);
}

#[test]
fn an_event_reaches_every_channel_of_the_user_and_no_other() {
    let mut registry = SSEClients::new();
    let phone = registry.subscribe(s("alice")).unwrap();
    let other = registry.subscribe(s("bob")).unwrap();
    let laptop = registry.subscribe(s("alice")).unwrap();
    assert_eq!(registry.recipients(&s("alice")), vec![phone, laptop]);
    assert_eq!(registry.recipients(&s("bob")), vec![other]);
    assert!(registry.recipients(&s("carol")).is_empty());
}

#[test]
fn a_channel_whose_send_failed_gets_nothing_further() {
    let mut registry = SSEClients::new();
    let phone = registry.subscribe(s("alice")).unwrap();
    let laptop = registry.subscribe(s("alice")).unwrap();
    let other = registry.subscribe(s("bob")).unwrap();
    broadcast(&mut registry, &s("alice"), &vec![phone]);
    assert_eq!(registry.recipients(&s("alice")), vec![laptop]);
    assert_eq!(registry.recipients(&s("bob")), vec![other]);
    registry.subscribe(s("alice")).unwrap();
    registry.subscribe(s("bob")).unwrap();
    broadcast(&mut registry, &s("bob"), &vec![]);
    for user in ["alice", "bob", "carol"] {
        assert!(!registry.recipients(&s(user)).contains(&phone));
    }
}

#[test]
fn a_failure_is_held_against_the_user_published_to_only() {
    let mut registry = SSEClients::new();
    let alice = registry.subscribe(s("alice")).unwrap();
    let bob = registry.subscribe(s("bob")).unwrap();
    // bob's handle among the failures of a publish to alice prunes nothing of bob's
    broadcast(&mut registry, &s("alice"), &vec![bob]);
    assert_eq!(registry.recipients(&s("alice")), vec![alice]);
    assert_eq!(registry.recipients(&s("bob")), vec![bob]);
    // nor does a publish to someone without channels
    broadcast(&mut registry, &s("carol"), &vec![alice, bob]);
    assert_eq!(registry.len(), 2);
    // a publish without failures keeps everything
    broadcast(&mut registry, &s("alice"), &vec![]);
    assert_eq!(registry.len(), 2);
    // a handle that was never issued changes nothing
    broadcast(&mut registry, &s("alice"), &vec![99]);
    assert_eq!(registry.len(), 2);
}

#[test]
fn publishing_to_many_publishes_once_per_id() {
    let mut registry = SSEClients::new();
    let a1 = registry.subscribe(s("alice")).unwrap();
    let b1 = registry.subscribe(s("bob")).unwrap();
    let a2 = registry.subscribe(s("alice")).unwrap();
    let c1 = registry.subscribe(s("carol")).unwrap();
    let targets = vec![s("bob"), s("alice"), s("dave")];
    assert_eq!(registry.recipients_of_all(&targets), vec![b1, a1, a2]);
    assert!(registry.recipients_of_all(&vec![]).is_empty());
    // an id named twice is published to twice
    assert_eq!(registry.recipients_of_all(&vec![s("bob"), s("bob")]), vec![b1, b1]);
    broadcast_many(&mut registry, &targets, &vec![a2, c1]);
    assert_eq!(registry.recipients(&s("alice")), vec![a1]);
    assert_eq!(registry.recipients(&s("bob")), vec![b1]);
    assert_eq!(registry.recipients(&s("carol")), vec![c1]);
}

#[test]
fn the_default_event_is_unknown_and_carries_nothing() {
    let event = SSEEvent::default();
    assert_eq!(event.event, "unknown");
    assert!(event.user.is_none());
    assert!(event.guild.is_none());
    assert!(event.guild_id.is_none());
    assert!(event.role.is_none());
    assert!(event.member.is_none());
    assert!(event.channel.is_none());
    assert!(event.message.is_none());
    assert!(event.invite.is_none());
    assert!(!event.is_deliverable());
    let bare = SSEEvent::bare("roleDeleted");
    assert_eq!(bare.event, "roleDeleted");
    assert!(!bare.is_deliverable());
}

#[test]
fn each_kind_of_event_carries_its_one_payload() {
    let guild = some_guild();
    let joined = SSEEvent::guild_joined(&guild);
    assert_eq!(joined.event, "guildJoined");
    assert_eq!(joined.guild.unwrap().name, "lounge");
    assert!(joined.is_deliverable());
    let edited = SSEEvent::guild_edited(&guild);
    assert_eq!(edited.event, "guildEdited");
    assert_eq!(edited.guild.unwrap().id, "g");
    assert!(edited.user.is_none() && edited.guild_id.is_none());
    assert!(edited.is_deliverable());
    let left = SSEEvent::guild_left("g");
    assert_eq!(left.event, "guildLeft");
    assert_eq!(left.guild_id, Some("g"));
    assert!(left.guild.is_none());
    assert!(left.is_deliverable());
    let me = ReturnedUserMe {
        id: s("u"),
        email: s("a@b.c"),
        username: s("alice"),
        discriminator: s("0001"),
        avatar: None,
        about: None,
        creation: 0,
        tfa: false,
    };
    let user_edited = SSEEvent::user_edited(&me);
    assert_eq!(user_edited.event, "userEdited");
    assert_eq!(user_edited.user.unwrap().username, "alice");
    assert!(user_edited.is_deliverable());
    let user = ReturnedUser {
        id: s("u"),
        username: s("bob"),
        discriminator: s("0002"),
        avatar: None,
        about: None,
        creation: 0,
    };
    let unbanned = SSEEvent::member_unbanned(&user);
    assert_eq!(unbanned.event, "memberUnbanned");
    assert_eq!(unbanned.member.unwrap().username, "bob");
    assert!(unbanned.guild_id.is_none());
    assert!(unbanned.is_deliverable());
}

#[test]
fn an_event_with_two_payloads_is_not_deliverable() {
    let guild = some_guild();
    let both = SSEEvent { guild_id: Some("g"), ..SSEEvent::guild_edited(&guild) };
    assert!(!both.is_deliverable());
    let one = SSEEvent { invite: Some("code"), ..SSEEvent::bare("inviteCreated") };
    assert!(one.is_deliverable());
    let role = SSEEvent { role: Some("r"), ..SSEEvent::default() };
    assert!(role.is_deliverable());
    let three = SSEEvent { channel: Some("c"), message: Some("m"), role: Some("r"), ..SSEEvent::default() };
    assert!(!three.is_deliverable());
}
