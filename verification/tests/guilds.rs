use betalky::aggregate::{MEMBER_ROLE_ID, OWNER_ROLE_ID};
use betalky::routes::guilds::{
    ban_member, create_guild, del_guild, del_guild_ban, get_guild, get_guild_bans, new_guild,
    transfer_ownership, update_guild,
};
use betalky::routes::structs::{
    CreateGuildBody, Guild, Invite, Member, PatchGuildBody, Role,
};
use betalky::utils::permissions::GuildPermissions;
use betalky::{AppError, Status};

fn s(text: &str) -> String {
    text.to_string()
}

fn founded() -> Guild {
    let body = CreateGuildBody { name: s("lounge"), description: Some(s("a place")) };
    new_guild(s("guild-1"), s("channel-1"), &body, &s("alice"), 1_000).unwrap()
}

fn with_member(mut guild: Guild, id: &str, roles: &[&str]) -> Guild {
    guild.members.push(Member {
        id: s(id),
        nickname: None,
        roles: roles.iter().map(|r| s(r)).collect(),
    });
    guild
}

fn with_role(mut guild: Guild, id: &str, permissions: u64) -> Guild {
    guild.roles.push(Role { id: s(id), name: s(id), color: None, hoist: false, permissions });
    guild
}

fn owners(guild: &Guild) -> Vec<String> {
    guild
        .members
        .iter()
        .filter(|m| m.roles.contains(&s(OWNER_ROLE_ID)))
        .map(|m| m.id.clone())
        .collect()
}

fn no_patch() -> PatchGuildBody {
    PatchGuildBody { name: None, description: None, public: None, owner: None }
}

#[test]
fn a_new_guild_keeps_what_it_was_given() {
    let guild = founded();
    assert_eq!(guild.id, "guild-1");
    assert_eq!(guild.name, "lounge");
    assert_eq!(guild.description, Some(s("a place")));
    assert_eq!(guild.icon, None);
    assert_eq!(guild.creation, 1_000);
    assert_eq!(guild.channels[0].id, "channel-1");
    assert_eq!(guild.channels[0].creation, 1_000);
    assert_eq!(guild.channels[0].topic, None);
    assert!(guild.channels[0].messages.is_empty());
    assert!(guild.channels[0].pins.is_empty());
    assert!(guild.is_well_formed());
    assert!(guild.holds_owner(&s("alice")));
}

#[test]
fn a_guild_name_may_have_thirty_bytes_and_no_more() {
    let thirty = CreateGuildBody { name: "a".repeat(30), description: None };
    assert!(new_guild(s("g"), s("c"), &thirty, &s("alice"), 0).is_ok());
    let more = CreateGuildBody { name: "a".repeat(31), description: None };
    assert_eq!(
        new_guild(s("g"), s("c"), &more, &s("alice"), 0).unwrap_err(),
        AppError(Status::BadRequest)
    );
    // sixteen two-byte letters are thirty-two bytes
    let wide = CreateGuildBody { name: "é".repeat(16), description: None };
    assert_eq!(
        new_guild(s("g"), s("c"), &wide, &s("alice"), 0).unwrap_err(),
        AppError(Status::BadRequest)
    );
    let fits = CreateGuildBody { name: "é".repeat(15), description: None };
    assert!(new_guild(s("g"), s("c"), &fits, &s("alice"), 0).is_ok());
}

#[test]
fn created_guilds_get_fresh_ids() {
    let body = CreateGuildBody { name: s("lounge"), description: None };
    let first = create_guild(&body, &s("alice"), 5).unwrap();
    let second = create_guild(&body, &s("alice"), 5).unwrap();
    for id in [&first.id, &first.channels[0].id, &second.id, &second.channels[0].id] {
        assert_eq!(id.len(), 36);
        let parsed = uuid::Uuid::parse_str(id).unwrap();
        assert_eq!(parsed.get_version_num(), 4);
        assert_eq!(&parsed.to_string(), id);
    }
    assert_ne!(first.id, first.channels[0].id);
    assert_ne!(first.id, second.id);
    assert_eq!(first.members[0].id, "alice");
    assert_eq!(first.creation, 5);
    assert!(first.is_well_formed());
    let long = CreateGuildBody { name: "x".repeat(31), description: None };
    assert_eq!(create_guild(&long, &s("alice"), 5).unwrap_err(), AppError(Status::BadRequest));
}

#[test]
fn a_guild_shows_itself_to_members_only() {
    let guild = with_member(founded(), "bob", &[MEMBER_ROLE_ID]);
    let shown = get_guild(&guild, &s("bob")).unwrap();
    assert_eq!(shown.id, "guild-1");
    assert_eq!(shown.name, "lounge");
    assert_eq!(shown.description, Some(s("a place")));
    assert_eq!(shown.icon, None);
    assert!(!shown.public);
    assert_eq!(shown.roles.len(), 2);
    assert_eq!(shown.roles[0].id, OWNER_ROLE_ID);
    assert_eq!(shown.roles[1].permissions, 3);
    assert_eq!(shown.members, 2);
    assert_eq!(shown.creation, 1_000);
    assert_eq!(get_guild(&guild, &s("mallory")).unwrap_err(), AppError(Status::NotFound));
}

#[test]
fn transfer_needs_the_owner() {
    let guild = with_role(founded(), "manager", GuildPermissions::MANAGE_GUILD);
    let guild = with_member(guild, "bob", &[MEMBER_ROLE_ID, "manager"]);
    let mut guild = with_member(guild, "carol", &[MEMBER_ROLE_ID]);
    // may manage the guild, but is not the owner
    assert_eq!(
        transfer_ownership(&mut guild, &s("bob"), &s("carol")).unwrap_err(),
        AppError(Status::Forbidden)
    );
    // neither
    assert_eq!(
        transfer_ownership(&mut guild, &s("carol"), &s("bob")).unwrap_err(),
        AppError(Status::Forbidden)
    );
    // not a member
    assert_eq!(
        transfer_ownership(&mut guild, &s("mallory"), &s("bob")).unwrap_err(),
        AppError(Status::Forbidden)
    );
    // is the owner, but the target is no member
    assert_eq!(
        transfer_ownership(&mut guild, &s("alice"), &s("mallory")).unwrap_err(),
        AppError(Status::NotFound)
    );
    // refused before the target is looked up
    assert_eq!(
        transfer_ownership(&mut guild, &s("carol"), &s("mallory")).unwrap_err(),
        AppError(Status::Forbidden)
    );
    assert_eq!(owners(&guild), vec![s("alice")]);
    assert!(guild.is_well_formed());
}

#[test]
fn an_owner_without_the_right_to_manage_cannot_transfer() {
    let mut guild = with_member(founded(), "bob", &[MEMBER_ROLE_ID]);
    guild.roles[0].permissions = 0;
    assert_eq!(
        transfer_ownership(&mut guild, &s("alice"), &s("bob")).unwrap_err(),
        AppError(Status::Forbidden)
    );
    assert_eq!(owners(&guild), vec![s("alice")]);
}

#[test]
fn transfer_leaves_exactly_one_owner() {
    let guild = with_member(founded(), "bob", &[MEMBER_ROLE_ID]);
    let mut guild = with_member(guild, "carol", &[MEMBER_ROLE_ID]);
    transfer_ownership(&mut guild, &s("alice"), &s("carol")).unwrap();
    assert_eq!(owners(&guild), vec![s("carol")]);
    assert_eq!(guild.members[0].roles, vec![s(MEMBER_ROLE_ID)]);
    assert_eq!(guild.members[1].roles, vec![s(MEMBER_ROLE_ID)]);
    assert_eq!(guild.members[2].roles, vec![s(MEMBER_ROLE_ID), s(OWNER_ROLE_ID)]);
    assert!(guild.is_well_formed());
    // the former owner has lost the right
    assert_eq!(
        transfer_ownership(&mut guild, &s("alice"), &s("bob")).unwrap_err(),
        AppError(Status::Forbidden)
    );
    transfer_ownership(&mut guild, &s("carol"), &s("alice")).unwrap();
    assert_eq!(owners(&guild), vec![s("alice")]);
    assert!(guild.is_well_formed());
}

#[test]
fn transfer_to_oneself_keeps_the_owner() {
    let mut guild = founded();
    transfer_ownership(&mut guild, &s("alice"), &s("alice")).unwrap();
    assert_eq!(owners(&guild), vec![s("alice")]);
    assert_eq!(guild.members[0].roles, vec![s(MEMBER_ROLE_ID), s(OWNER_ROLE_ID)]);
    assert!(guild.is_well_formed());
}

#[test]
fn an_edit_replaces_the_given_fields() {
    let mut guild = founded();
    let body = PatchGuildBody {
        name: Some(s("salon")),
        description: None,
        public: Some(true),
        owner: None,
    };
    let shown = update_guild(&mut guild, &s("alice"), &body).unwrap();
    assert_eq!(shown.name, "salon");
    assert_eq!(shown.description, Some(s("a place")));
    assert!(shown.public);
    assert_eq!(shown.members, 1);
    assert_eq!(guild.name, "salon");
    assert_eq!(guild.description, Some(s("a place")));
    assert!(guild.public);
    let body = PatchGuildBody { description: Some(s("")), ..no_patch() };
    let shown = update_guild(&mut guild, &s("alice"), &body).unwrap();
    assert_eq!(shown.description, Some(s("")));
    assert_eq!(guild.name, "salon");
    assert!(guild.public);
}

#[test]
fn an_edit_with_overlong_fields_is_a_bad_request() {
    let mut guild = founded();
    let body = PatchGuildBody { name: Some("n".repeat(31)), ..no_patch() };
    assert_eq!(
        update_guild(&mut guild, &s("alice"), &body).unwrap_err(),
        AppError(Status::BadRequest)
    );
    let body = PatchGuildBody { description: Some("d".repeat(1001)), ..no_patch() };
    assert_eq!(
        update_guild(&mut guild, &s("alice"), &body).unwrap_err(),
        AppError(Status::BadRequest)
    );
    // checked before the actor's rights
    assert_eq!(
        update_guild(&mut guild, &s("mallory"), &body).unwrap_err(),
        AppError(Status::BadRequest)
    );
    let body = PatchGuildBody {
        name: Some("n".repeat(30)),
        description: Some("d".repeat(1000)),
        ..no_patch()
    };
    assert!(update_guild(&mut guild, &s("alice"), &body).is_ok());
    assert_eq!(guild.name.len(), 30);
}

#[test]
fn an_edit_needs_the_right_to_manage() {
    let mut guild = with_member(founded(), "bob", &[MEMBER_ROLE_ID]);
    let body = PatchGuildBody { name: Some(s("mine")), ..no_patch() };
    assert_eq!(
        update_guild(&mut guild, &s("bob"), &body).unwrap_err(),
        AppError(Status::Forbidden)
    );
    assert_eq!(
        update_guild(&mut guild, &s("mallory"), &body).unwrap_err(),
        AppError(Status::Forbidden)
    );
    assert_eq!(guild.name, "lounge");
}

#[test]
fn an_edit_that_names_an_owner_transfers_all_or_nothing() {
    let guild = with_role(founded(), "manager", GuildPermissions::MANAGE_GUILD);
    let mut guild = with_member(guild, "bob", &[MEMBER_ROLE_ID, "manager"]);
    // the target is no member: nothing changes, not even the name
    let body = PatchGuildBody { name: Some(s("salon")), owner: Some(s("mallory")), ..no_patch() };
    assert_eq!(
        update_guild(&mut guild, &s("alice"), &body).unwrap_err(),
        AppError(Status::NotFound)
    );
    assert_eq!(guild.name, "lounge");
    assert_eq!(owners(&guild), vec![s("alice")]);
    // a manager who is not the owner may edit but not transfer
    let body = PatchGuildBody { name: Some(s("salon")), owner: Some(s("bob")), ..no_patch() };
    assert_eq!(
        update_guild(&mut guild, &s("bob"), &body).unwrap_err(),
        AppError(Status::Forbidden)
    );
    assert_eq!(guild.name, "lounge");
    let shown = update_guild(&mut guild, &s("alice"), &body).unwrap();
    assert_eq!(shown.name, "salon");
    assert_eq!(guild.name, "salon");
    assert_eq!(owners(&guild), vec![s("bob")]);
    assert!(guild.is_well_formed());
}

#[test]
fn a_ban_evicts_and_records() {
    let guild = with_member(founded(), "bob", &[MEMBER_ROLE_ID]);
    let mut guild = with_member(guild, "carol", &[MEMBER_ROLE_ID]);
    ban_member(&mut guild, &s("alice"), &s("bob")).unwrap();
    assert_eq!(guild.bans, vec![s("bob")]);
    assert!(guild.members.iter().all(|m| m.id != "bob"));
    assert_eq!(guild.members.len(), 2);
    assert_eq!(guild.members[1].id, "carol");
    assert!(guild.is_well_formed());
    // banning again records nothing twice
    ban_member(&mut guild, &s("alice"), &s("bob")).unwrap();
    assert_eq!(guild.bans, vec![s("bob")]);
    // someone who is no member can be banned ahead
    ban_member(&mut guild, &s("alice"), &s("dave")).unwrap();
    assert_eq!(guild.bans, vec![s("bob"), s("dave")]);
    assert_eq!(guild.members.len(), 2);
    assert!(guild.is_well_formed());
}

#[test]
fn a_ban_needs_the_right_to_ban() {
    let guild = with_member(founded(), "bob", &[MEMBER_ROLE_ID]);
    let mut guild = with_member(guild, "carol", &[MEMBER_ROLE_ID]);
    assert_eq!(
        ban_member(&mut guild, &s("bob"), &s("carol")).unwrap_err(),
        AppError(Status::Forbidden)
    );
    assert_eq!(
        ban_member(&mut guild, &s("mallory"), &s("carol")).unwrap_err(),
        AppError(Status::Forbidden)
    );
    assert!(guild.bans.is_empty());
    assert_eq!(guild.members.len(), 3);
}

#[test]
fn a_ban_evicts_every_record_of_the_user() {
    let guild = with_member(founded(), "bob", &[MEMBER_ROLE_ID]);
    let mut guild = with_member(guild, "bob", &[]);
    ban_member(&mut guild, &s("alice"), &s("bob")).unwrap();
    assert_eq!(guild.members.len(), 1);
    assert_eq!(guild.members[0].id, "alice");
}

#[test]
fn lifting_a_ban_tells_those_who_may_ban() {
    let guild = with_role(founded(), "mod", GuildPermissions::BAN_MEMBERS);
    let guild = with_member(guild, "bob", &[MEMBER_ROLE_ID, "mod"]);
    let mut guild = with_member(guild, "carol", &[MEMBER_ROLE_ID]);
    ban_member(&mut guild, &s("bob"), &s("dave")).unwrap();
    ban_member(&mut guild, &s("bob"), &s("erin")).unwrap();
    assert_eq!(
        del_guild_ban(&mut guild, &s("carol"), &s("dave")).unwrap_err(),
        AppError(Status::Forbidden)
    );
    assert_eq!(guild.bans, vec![s("dave"), s("erin")]);
    let notify = del_guild_ban(&mut guild, &s("bob"), &s("dave")).unwrap();
    assert_eq!(notify, vec![s("alice"), s("bob")]);
    assert_eq!(guild.bans, vec![s("erin")]);
    // lifting a ban that is not there changes nothing
    let notify = del_guild_ban(&mut guild, &s("alice"), &s("nobody")).unwrap();
    assert_eq!(notify, vec![s("alice"), s("bob")]);
    assert_eq!(guild.bans, vec![s("erin")]);
    assert!(guild.is_well_formed());
}

#[test]
fn the_ban_list_is_for_those_who_may_ban() {
    let mut guild = with_member(founded(), "bob", &[MEMBER_ROLE_ID]);
    ban_member(&mut guild, &s("alice"), &s("dave")).unwrap();
    assert_eq!(get_guild_bans(&guild, &s("alice")).unwrap(), vec![s("dave")]);
    assert_eq!(get_guild_bans(&guild, &s("bob")).unwrap_err(), AppError(Status::Forbidden));
    assert_eq!(get_guild_bans(&guild, &s("dave")).unwrap_err(), AppError(Status::Forbidden));
}

#[test]
fn members_with_a_permission_are_listed_in_order() {
    let guild = with_role(founded(), "mod", GuildPermissions::BAN_MEMBERS);
    let guild = with_member(guild, "bob", &[MEMBER_ROLE_ID]);
    let guild = with_member(guild, "carol", &["mod"]);
    let ban = GuildPermissions::from_bits_truncate(GuildPermissions::BAN_MEMBERS);
    assert_eq!(guild.members_with_permission(ban), vec![s("alice"), s("carol")]);
    let invite = GuildPermissions::from_bits_truncate(GuildPermissions::CREATE_INVITE);
    assert_eq!(guild.members_with_permission(invite), vec![s("alice"), s("bob")]);
    assert_eq!(guild.member_ids(), vec![s("alice"), s("bob"), s("carol")]);
}

#[test]
fn only_the_owner_deletes_the_guild() {
    let guild = with_role(founded(), "admin", GuildPermissions::ADMINISTRATOR);
    let guild = with_member(guild, "bob", &[MEMBER_ROLE_ID, "admin"]);
    let guild = with_member(guild, "carol", &[MEMBER_ROLE_ID]);
    assert_eq!(del_guild(&guild, &s("alice")).unwrap(), vec![s("alice"), s("bob"), s("carol")]);
    // an administrator who is not the owner is refused
    assert_eq!(del_guild(&guild, &s("bob")).unwrap_err(), AppError(Status::Forbidden));
    assert_eq!(del_guild(&guild, &s("carol")).unwrap_err(), AppError(Status::Forbidden));
    assert_eq!(del_guild(&guild, &s("mallory")).unwrap_err(), AppError(Status::Forbidden));
}

#[test]
fn each_broken_invariant_is_found() {
    assert!(founded().is_well_formed());

    let mut two_owner_roles = founded();
    two_owner_roles.roles.push(Role {
        id: s(OWNER_ROLE_ID),
        name: s("again"),
        color: None,
        hoist: false,
        permissions: 0,
    });
    assert!(!two_owner_roles.is_well_formed());

    let mut no_owner_role = founded();
    no_owner_role.roles.remove(0);
    assert!(!no_owner_role.is_well_formed());

    let mut no_member_role = founded();
    no_member_role.roles.remove(1);
    assert!(!no_member_role.is_well_formed());

    let two_owners = with_member(founded(), "bob", &[OWNER_ROLE_ID]);
    assert!(!two_owners.is_well_formed());

    let mut no_owner = founded();
    no_owner.members[0].roles = vec![s(MEMBER_ROLE_ID)];
    assert!(!no_owner.is_well_formed());

    let unknown_role = with_member(founded(), "bob", &["ghost"]);
    assert!(!unknown_role.is_well_formed());

    let mut banned_member = with_member(founded(), "bob", &[MEMBER_ROLE_ID]);
    banned_member.bans.push(s("bob"));
    assert!(!banned_member.is_well_formed());

    let twice = with_member(with_member(founded(), "bob", &[]), "bob", &[]);
    assert!(!twice.is_well_formed());

    let invite = |code: &str, uses: usize, max_uses: usize| Invite {
        code: s(code),
        author: s("alice"),
        expiration: 0,
        max_uses,
        uses,
    };
    let mut overused = founded();
    overused.invites.push(invite("a", 3, 2));
    assert!(!overused.is_well_formed());

    let mut same_code = founded();
    same_code.invites.push(invite("a", 0, 1));
    same_code.invites.push(invite("b", 0, 1));
    same_code.invites.push(invite("a", 0, 1));
    assert!(!same_code.is_well_formed());

    let mut fine = with_member(founded(), "bob", &[MEMBER_ROLE_ID]);
    fine.invites.push(invite("a", 2, 2));
    fine.invites.push(invite("b", 0, 0));
    fine.bans.push(s("dave"));
    assert!(fine.is_well_formed());
}
