use betalky::routes::structs::{Channel, ChannelRole, Guild, Member, Role};
use betalky::utils::permissions::{
    check_channel_permission, check_guild_permission, ChannelPermissions, GuildPermissions,
};

fn role(id: &str, permissions: u64) -> Role {
    Role { id: id.to_string(), name: id.to_string(), color: None, hoist: false, permissions }
}

fn member(id: &str, roles: &[&str]) -> Member {
    Member {
        id: id.to_string(),
        nickname: None,
        roles: roles.iter().map(|r| r.to_string()).collect(),
    }
}

fn channel(id: &str, roles: Vec<ChannelRole>) -> Channel {
    Channel {
        id: id.to_string(),
        name: id.to_string(),
        topic: None,
        kind: "text".to_string(),
        creation: 0,
        roles,
        messages: vec![],
        pins: vec![],
    }
}

fn guild(roles: Vec<Role>, members: Vec<Member>, channels: Vec<Channel>) -> Guild {
    Guild {
        id: "g".to_string(),
        name: "g".to_string(),
        description: None,
        icon: None,
        public: false,
        channels,
        roles,
        members,
        creation: 0,
        bans: vec![],
        invites: vec![],
    }
}

fn guild_check(guild: &Guild, member: &str, bits: u64) -> bool {
    check_guild_permission(guild, &member.to_string(), GuildPermissions::from_bits_truncate(bits))
}

fn channel_check(guild: &Guild, channel: &str, member: &str, bits: u64) -> bool {
    check_channel_permission(
        guild,
        &channel.to_string(),
        &member.to_string(),
        ChannelPermissions::from_bits_truncate(bits),
    )
}

#[test]
fn permission_bits_have_their_places() {
    assert_eq!(GuildPermissions::CREATE_INVITE, 1);
    assert_eq!(GuildPermissions::CHANGE_NICKNAME, 2);
    assert_eq!(GuildPermissions::MANAGE_NICKNAMES, 4);
    assert_eq!(GuildPermissions::VIEW_AUDIT_LOG, 8);
    assert_eq!(GuildPermissions::MANAGE_ROLES, 16);
    assert_eq!(GuildPermissions::KICK_MEMBERS, 32);
    assert_eq!(GuildPermissions::BAN_MEMBERS, 64);
    assert_eq!(GuildPermissions::MANAGE_GUILD, 128);
    assert_eq!(GuildPermissions::ADMINISTRATOR, u64::MAX);
    assert_eq!(ChannelPermissions::VIEW_CHANNEL, 1);
    assert_eq!(ChannelPermissions::SEND_MESSAGES, 2);
    assert_eq!(ChannelPermissions::MANAGE_CHANNEL, 4);
    assert_eq!(ChannelPermissions::MANAGE_MESSAGES, 8);
    assert_eq!(ChannelPermissions::ADMINISTRATOR, u64::MAX);
}

#[test]
fn permission_sets_contain_their_subsets() {
    let set = GuildPermissions::from_bits_truncate(0b0110);
    assert_eq!(set.bits(), 0b0110);
    assert!(set.contains(GuildPermissions::from_bits_truncate(0b0100)));
    assert!(set.contains(GuildPermissions::from_bits_truncate(0b0110)));
    assert!(set.contains(GuildPermissions::from_bits_truncate(0)));
    assert!(!set.contains(GuildPermissions::from_bits_truncate(0b0111)));
    let high = GuildPermissions::from_bits_truncate(1 << 63);
    assert_eq!(high.bits(), 1 << 63);
    let channel = ChannelPermissions::from_bits_truncate(0b1001);
    assert_eq!(channel.bits(), 0b1001);
    assert!(channel.contains(ChannelPermissions::from_bits_truncate(0b1000)));
    assert!(!channel.contains(ChannelPermissions::from_bits_truncate(0b0010)));
}

#[test]
fn administrator_passes_every_guild_check() {
    let g = guild(
        vec![role("admin", GuildPermissions::ADMINISTRATOR), role("plain", 0)],
        vec![member("alice", &["plain", "admin"])],
        vec![],
    );
    for bit in 0..64 {
        assert!(guild_check(&g, "alice", 1 << bit));
    }
    assert!(guild_check(&g, "alice", GuildPermissions::ADMINISTRATOR));
    assert!(guild_check(&g, "alice", 0));
}

#[test]
fn a_bit_that_no_held_role_grants_is_denied() {
    let g = guild(
        vec![
            role("inviter", GuildPermissions::CREATE_INVITE),
            role("banner", GuildPermissions::BAN_MEMBERS),
            role("admin", GuildPermissions::ADMINISTRATOR),
        ],
        vec![member("bob", &["inviter"])],
        vec![],
    );
    assert!(guild_check(&g, "bob", GuildPermissions::CREATE_INVITE));
    assert!(!guild_check(&g, "bob", GuildPermissions::BAN_MEMBERS));
    assert!(!guild_check(&g, "bob", GuildPermissions::MANAGE_GUILD));
    assert!(!guild_check(&g, "bob", GuildPermissions::ADMINISTRATOR));
}

#[test]
fn held_roles_are_united() {
    let g = guild(
        vec![
            role("inviter", GuildPermissions::CREATE_INVITE),
            role("banner", GuildPermissions::BAN_MEMBERS),
        ],
        vec![member("bob", &["inviter", "banner"]), member("carol", &["banner"])],
        vec![],
    );
    let both = GuildPermissions::CREATE_INVITE | GuildPermissions::BAN_MEMBERS;
    assert!(guild_check(&g, "bob", both));
    assert!(!guild_check(&g, "carol", both));
    assert!(guild_check(&g, "carol", GuildPermissions::BAN_MEMBERS));
}

#[test]
fn someone_who_is_not_a_member_is_denied() {
    let g = guild(
        vec![role("admin", GuildPermissions::ADMINISTRATOR)],
        vec![member("alice", &["admin"])],
        vec![channel("c", vec![ChannelRole { id: "admin".to_string(), permissions: u64::MAX }])],
    );
    assert!(!guild_check(&g, "mallory", GuildPermissions::CREATE_INVITE));
    assert!(!guild_check(&g, "mallory", 0));
    assert!(!channel_check(&g, "c", "mallory", ChannelPermissions::VIEW_CHANNEL));
}

#[test]
fn a_role_id_that_names_no_role_grants_nothing() {
    let g = guild(
        vec![role("inviter", GuildPermissions::CREATE_INVITE)],
        vec![member("bob", &["ghost"])],
        vec![],
    );
    assert!(!guild_check(&g, "bob", GuildPermissions::CREATE_INVITE));
    assert!(guild_check(&g, "bob", 0));
}

#[test]
fn the_first_record_of_a_user_counts() {
    let g = guild(
        vec![role("inviter", GuildPermissions::CREATE_INVITE)],
        vec![member("bob", &[]), member("bob", &["inviter"])],
        vec![],
    );
    assert!(!guild_check(&g, "bob", GuildPermissions::CREATE_INVITE));
}

#[test]
fn channel_checks_go_by_the_channels_own_entries() {
    let g = guild(
        vec![
            role("admin", GuildPermissions::ADMINISTRATOR),
            role("reader", 0),
            role("writer", 0),
        ],
        vec![
            member("alice", &["admin"]),
            member("bob", &["reader"]),
            member("carol", &["reader", "writer"]),
        ],
        vec![
            channel(
                "news",
                vec![
                    ChannelRole { id: "reader".to_string(), permissions: 1 },
                    ChannelRole { id: "writer".to_string(), permissions: 2 },
                ],
            ),
            channel(
                "staff",
                vec![ChannelRole { id: "admin".to_string(), permissions: u64::MAX }],
            ),
        ],
    );
    assert!(channel_check(&g, "news", "bob", ChannelPermissions::VIEW_CHANNEL));
    assert!(!channel_check(&g, "news", "bob", ChannelPermissions::SEND_MESSAGES));
    assert!(channel_check(&g, "news", "carol", 3));
    assert!(!channel_check(&g, "news", "carol", ChannelPermissions::MANAGE_CHANNEL));
    // a guild-wide administrator role without an entry contributes nothing
    assert!(!channel_check(&g, "news", "alice", ChannelPermissions::VIEW_CHANNEL));
    // with an administrator entry every channel permission passes
    for bit in 0..64 {
        assert!(channel_check(&g, "staff", "alice", 1 << bit));
    }
    assert!(!channel_check(&g, "staff", "bob", ChannelPermissions::VIEW_CHANNEL));
    assert!(!channel_check(&g, "lobby", "alice", ChannelPermissions::VIEW_CHANNEL));
}
