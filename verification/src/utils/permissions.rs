//! Permission bitmasks and the resolver that answers whether a member may act.
//!
//! A member's permissions in a guild are the union of the masks of the roles
//! the member holds. A check passes when that union contains every requested
//! bit, or when one of the held roles carries the administrator mask. In a
//! channel only the channel's own per-role entries count: a role without an
//! entry contributes nothing there.

use vstd::prelude::*;
use crate::aggregate::channel_position;
use crate::sequences::contains_text;
use crate::routes::structs::{ChannelRole, ChannelRoleView, Guild, GuildView, Role, RoleView};

verus! {

/// A set of guild-scoped permissions, one bit each.
#[derive(Clone, Copy, Debug)]
pub struct GuildPermissions {
    bits: u64,
}

impl View for GuildPermissions {
    type V = u64;

    closed spec fn view(&self) -> u64 {
        self.bits
    }
}

impl GuildPermissions {
    pub const CREATE_INVITE: u64 = 1 << 0;

    pub const CHANGE_NICKNAME: u64 = 1 << 1;

    pub const MANAGE_NICKNAMES: u64 = 1 << 2;

    pub const VIEW_AUDIT_LOG: u64 = 1 << 3;

    pub const MANAGE_ROLES: u64 = 1 << 4;

    pub const KICK_MEMBERS: u64 = 1 << 5;

    pub const BAN_MEMBERS: u64 = 1 << 6;

    pub const MANAGE_GUILD: u64 = 1 << 7;

    /// Every bit set: satisfies every check.
    pub const ADMINISTRATOR: u64 = 0xffff_ffff_ffff_ffff;

    /// The permission set with exactly these bits. Every bit is meaningful,
    /// because the administrator mask names them all.
    pub fn from_bits_truncate(bits: u64) -> (set: Self)
        ensures
            set@ == bits,
    {
        GuildPermissions { bits }
    }

    pub fn bits(&self) -> (bits: u64)
        ensures
            bits == self@,
    {
        self.bits
    }

    /// Whether every permission of `other` is in this set.
    pub fn contains(&self, other: GuildPermissions) -> (all: bool)
        ensures
            all == (self@ & other@ == other@),
    {
        self.bits & other.bits == other.bits
    }
}

/// A set of channel-scoped permissions, one bit each.
#[derive(Clone, Copy, Debug)]
pub struct ChannelPermissions {
    bits: u64,
}

impl View for ChannelPermissions {
    type V = u64;

    closed spec fn view(&self) -> u64 {
        self.bits
    }
}

impl ChannelPermissions {
    pub const VIEW_CHANNEL: u64 = 1 << 0;

    pub const SEND_MESSAGES: u64 = 1 << 1;

    pub const MANAGE_CHANNEL: u64 = 1 << 2;

    pub const MANAGE_MESSAGES: u64 = 1 << 3;

    /// Every bit set: satisfies every check.
    pub const ADMINISTRATOR: u64 = 0xffff_ffff_ffff_ffff;

    /// The permission set with exactly these bits.
    pub fn from_bits_truncate(bits: u64) -> (set: Self)
        ensures
            set@ == bits,
    {
        ChannelPermissions { bits }
    }

    pub fn bits(&self) -> (bits: u64)
        ensures
            bits == self@,
    {
        self.bits
    }

    /// Whether every permission of `other` is in this set.
    pub fn contains(&self, other: ChannelPermissions) -> (all: bool)
        ensures
            all == (self@ & other@ == other@),
    {
        self.bits & other.bits == other.bits
    }
}

/// The administrator mask as a number.
pub open spec fn administrator() -> u64 {
    0xffff_ffff_ffff_ffff
}

/// A grant pairs a role id with the mask that the role contributes.
pub type Grant = (Seq<char>, u64);

/// The grants of a guild's roles: each role's id with its guild-scoped mask.
pub open spec fn role_grants(roles: Seq<RoleView>) -> Seq<Grant> {
    Seq::new(roles.len(), |i: int| (roles[i].id, roles[i].permissions))
}

/// The grants of a channel's entries: each entry's role id with its channel-scoped mask.
pub open spec fn channel_role_grants(roles: Seq<ChannelRoleView>) -> Seq<Grant> {
    Seq::new(roles.len(), |i: int| (roles[i].id, roles[i].permissions))
}

/// Union of the masks of the grants whose role is among `held`.
pub open spec fn granted_bits(grants: Seq<Grant>, held: Seq<Seq<char>>) -> u64
    decreases grants.len(),
{
    if grants.len() == 0 {
        0
    } else if held.contains(grants.last().0) {
        granted_bits(grants.drop_last(), held) | grants.last().1
    } else {
        granted_bits(grants.drop_last(), held)
    }
}

/// Whether one of the grants whose role is among `held` is the administrator mask.
pub open spec fn administrator_held(grants: Seq<Grant>, held: Seq<Seq<char>>) -> bool {
    exists|i: int|
        0 <= i < grants.len() && held.contains((#[trigger] grants[i]).0) && grants[i].1
            == administrator()
}

/// Whether holding the roles `held` passes a check for `permission`.
pub open spec fn permission_granted(
    grants: Seq<Grant>,
    held: Seq<Seq<char>>,
    permission: u64,
) -> bool {
    granted_bits(grants, held) & permission == permission || administrator_held(grants, held)
}

/// Whether the member may exercise `permission` in the guild. Someone who is
/// not a member may not.
pub open spec fn guild_permission_granted(
    guild: GuildView,
    member_id: Seq<char>,
    permission: u64,
) -> bool {
    match guild.held_roles(member_id) {
        Some(held) => permission_granted(role_grants(guild.roles), held, permission),
        None => false,
    }
}

/// Taking one more grant into account: its mask joins the union if its role
/// is held, and an administrator is held if one was before or this is one.
proof fn lemma_resolution_step(grants: Seq<Grant>, held: Seq<Seq<char>>, i: int)
    requires
        0 <= i < grants.len(),
    ensures
        granted_bits(grants.take(i + 1), held) == if held.contains(grants[i].0) {
            granted_bits(grants.take(i), held) | grants[i].1
        } else {
            granted_bits(grants.take(i), held)
        },
        administrator_held(grants.take(i + 1), held) <==> administrator_held(grants.take(i), held)
            || (held.contains(grants[i].0) && grants[i].1 == administrator()),
{
    let before = grants.take(i);
    let after = grants.take(i + 1);
    assert(after.drop_last() == before);
    assert(after.last() == grants[i]);
    if administrator_held(before, held) {
        let w = choose|w: int|
            0 <= w < before.len() && held.contains((#[trigger] before[w]).0) && before[w].1
                == administrator();
        assert(after[w] == before[w]);
    }
    if administrator_held(after, held) && !(held.contains(grants[i].0) && grants[i].1
        == administrator()) {
        let w = choose|w: int|
            0 <= w < after.len() && held.contains((#[trigger] after[w]).0) && after[w].1
                == administrator();
        assert(before[w] == after[w]);
    }
    if held.contains(grants[i].0) && grants[i].1 == administrator() {
        assert(held.contains(after[i].0));
    }
}

/// The per-role entries of the channel with this id; none for an unknown channel.
pub open spec fn channel_entries(guild: GuildView, channel_id: Seq<char>) -> Seq<ChannelRoleView> {
    match channel_position(guild.channels, channel_id) {
        Some(c) => guild.channels[c].roles,
        None => Seq::empty(),
    }
}

/// Whether the member may exercise `permission` in the channel. Only the
/// channel's own entries count; an unknown channel or a non-member is denied.
pub open spec fn channel_permission_granted(
    guild: GuildView,
    channel_id: Seq<char>,
    member_id: Seq<char>,
    permission: u64,
) -> bool {
    match (channel_position(guild.channels, channel_id), guild.held_roles(member_id)) {
        (Some(_), Some(held)) => permission_granted(
            channel_role_grants(channel_entries(guild, channel_id)),
            held,
            permission,
        ),
        _ => false,
    }
}

/// Whether the mask is one single permission bit.
pub open spec fn single_bit(permission: u64) -> bool {
    exists|k: u64| k < 64 && permission == 1u64 << k
}

/// Whether none of the grants whose role is among `held` contains `permission`
/// or is the administrator mask.
pub open spec fn nothing_grants(grants: Seq<Grant>, held: Seq<Seq<char>>, permission: u64) -> bool {
    forall|i: int|
        0 <= i < grants.len() && held.contains((#[trigger] grants[i]).0) ==> grants[i].1
            & permission != permission && grants[i].1 != administrator()
}

/// When no held grant has the single bit, the union does not have it either.
proof fn lemma_union_lacks_bit(grants: Seq<Grant>, held: Seq<Seq<char>>, permission: u64)
    requires
        single_bit(permission),
        nothing_grants(grants, held, permission),
    ensures
        granted_bits(grants, held) & permission == 0,
    decreases grants.len(),
{
    let k = choose|k: u64| k < 64 && permission == 1u64 << k;
    if grants.len() == 0 {
        assert(0u64 & permission == 0) by (bit_vector);
    } else {
        let front = grants.drop_last();
        assert(forall|i: int| 0 <= i < front.len() ==> front[i] == grants[i]);
        lemma_union_lacks_bit(front, held, permission);
        let rest = granted_bits(front, held);
        let mask = grants.last().1;
        if held.contains(grants.last().0) {
            assert(grants[grants.len() - 1].1 & permission != permission);
            assert((rest | mask) & permission == 0) by (bit_vector)
                requires
                    k < 64,
                    permission == 1u64 << k,
                    rest & permission == 0,
                    mask & permission != permission,
            ;
        }
    }
}

/// Holding any role with the administrator mask passes the check for every
/// permission, whatever the other roles grant.
pub proof fn lemma_administrator_passes(grants: Seq<Grant>, held: Seq<Seq<char>>, permission: u64)
    requires
        administrator_held(grants, held),
    ensures
        permission_granted(grants, held, permission),
{
}

/// The check for a single permission bit fails when no held role grants that
/// bit and none is an administrator.
pub proof fn lemma_ungranted_bit_fails(grants: Seq<Grant>, held: Seq<Seq<char>>, permission: u64)
    requires
        single_bit(permission),
        nothing_grants(grants, held, permission),
    ensures
        !permission_granted(grants, held, permission),
{
    lemma_union_lacks_bit(grants, held, permission);
    let k = choose|k: u64| k < 64 && permission == 1u64 << k;
    assert(permission != 0) by (bit_vector)
        requires
            k < 64,
            permission == 1u64 << k,
    ;
}

/// A member who holds any role that carries the administrator mask may
/// exercise every guild permission.
pub proof fn lemma_guild_administrator_passes(
    guild: GuildView,
    member_id: Seq<char>,
    permission: u64,
)
    requires
        guild.held_roles(member_id) matches Some(held) && exists|i: int|
            0 <= i < guild.roles.len() && held.contains((#[trigger] guild.roles[i]).id)
                && guild.roles[i].permissions == administrator(),
    ensures
        guild_permission_granted(guild, member_id, permission),
{
    let held = guild.held_roles(member_id)->0;
    let i = choose|i: int|
        0 <= i < guild.roles.len() && held.contains((#[trigger] guild.roles[i]).id)
            && guild.roles[i].permissions == administrator();
    assert(held.contains(role_grants(guild.roles)[i].0));
}

/// A member who holds no role that grants the permission bit, and no role
/// with the administrator mask, may not exercise it. Neither may anyone who
/// is not a member.
pub proof fn lemma_guild_ungranted_bit_fails(
    guild: GuildView,
    member_id: Seq<char>,
    permission: u64,
)
    requires
        single_bit(permission),
        guild.held_roles(member_id) matches Some(held) ==> forall|i: int|
            0 <= i < guild.roles.len() && held.contains((#[trigger] guild.roles[i]).id)
                ==> guild.roles[i].permissions & permission != permission
                && guild.roles[i].permissions != administrator(),
    ensures
        !guild_permission_granted(guild, member_id, permission),
{
    if let Some(held) = guild.held_roles(member_id) {
        let grants = role_grants(guild.roles);
        assert forall|i: int|
            0 <= i < grants.len() && held.contains((#[trigger] grants[i]).0) implies grants[i].1
            & permission != permission && grants[i].1 != administrator() by {
            assert(held.contains(guild.roles[i].id));
        }
        lemma_ungranted_bit_fails(grants, held, permission);
    }
}

/// In a channel, a member who holds a role whose entry there carries the
/// administrator mask may exercise every channel permission.
pub proof fn lemma_channel_administrator_passes(
    guild: GuildView,
    channel_id: Seq<char>,
    member_id: Seq<char>,
    permission: u64,
)
    requires
        channel_position(guild.channels, channel_id) is Some,
        guild.held_roles(member_id) matches Some(held) && exists|i: int|
            0 <= i < channel_entries(guild, channel_id).len() && held.contains(
                (#[trigger] channel_entries(guild, channel_id)[i]).id,
            ) && channel_entries(guild, channel_id)[i].permissions == administrator(),
    ensures
        channel_permission_granted(guild, channel_id, member_id, permission),
{
    let held = guild.held_roles(member_id)->0;
    let entries = channel_entries(guild, channel_id);
    let i = choose|i: int|
        0 <= i < entries.len() && held.contains((#[trigger] entries[i]).id)
            && entries[i].permissions == administrator();
    assert(held.contains(channel_role_grants(entries)[i].0));
}

/// In a channel, a member none of whose held roles has an entry granting the
/// permission bit, or an entry with the administrator mask, may not exercise
/// it, whatever those roles grant guild-wide.
pub proof fn lemma_channel_ungranted_bit_fails(
    guild: GuildView,
    channel_id: Seq<char>,
    member_id: Seq<char>,
    permission: u64,
)
    requires
        single_bit(permission),
        guild.held_roles(member_id) matches Some(held) ==> forall|i: int|
            0 <= i < channel_entries(guild, channel_id).len() && held.contains(
                (#[trigger] channel_entries(guild, channel_id)[i]).id,
            ) ==> channel_entries(guild, channel_id)[i].permissions & permission != permission
                && channel_entries(guild, channel_id)[i].permissions != administrator(),
    ensures
        !channel_permission_granted(guild, channel_id, member_id, permission),
{
    if channel_position(guild.channels, channel_id) is Some {
        if let Some(held) = guild.held_roles(member_id) {
            let entries = channel_entries(guild, channel_id);
            let grants = channel_role_grants(entries);
            assert forall|i: int|
                0 <= i < grants.len() && held.contains(
                    (#[trigger] grants[i]).0,
                ) implies grants[i].1 & permission != permission && grants[i].1
                != administrator() by {
                assert(held.contains(entries[i].id));
            }
            lemma_ungranted_bit_fails(grants, held, permission);
        }
    }
}

/// Resolves a check against a guild's roles for someone holding `held`.
fn resolve_roles(roles: &Vec<Role>, held: &Vec<String>, permission: u64) -> (granted: bool)
    ensures
        granted == permission_granted(role_grants(roles.deep_view()), held.deep_view(), permission),
{
    let ghost grants = role_grants(roles.deep_view());
    let ghost ids = held.deep_view();
    let mut union: u64 = 0;
    let mut sentinel = false;
    let mut i: usize = 0;
    while i < roles.len()
        invariant
            i <= roles.len(),
            grants == role_grants(roles.deep_view()),
            ids == held.deep_view(),
            union == granted_bits(grants.take(i as int), ids),
            sentinel == administrator_held(grants.take(i as int), ids),
        decreases roles.len() - i,
    {
        let role = &roles[i];
        proof {
            assert(grants[i as int] == (role.id@, role.permissions));
            lemma_resolution_step(grants, ids, i as int);
        }
        if contains_text(held, &role.id) {
            union = union | role.permissions;
            if role.permissions == GuildPermissions::ADMINISTRATOR {
                sentinel = true;
            }
        }
        i += 1;
    }
    assert(grants.take(i as int) == grants);
    union & permission == permission || sentinel
}

/// Resolves a check against a channel's entries for someone holding `held`.
fn resolve_channel_roles(roles: &Vec<ChannelRole>, held: &Vec<String>, permission: u64) -> (granted:
    bool)
    ensures
        granted == permission_granted(
            channel_role_grants(roles.deep_view()),
            held.deep_view(),
            permission,
        ),
{
    let ghost grants = channel_role_grants(roles.deep_view());
    let ghost ids = held.deep_view();
    let mut union: u64 = 0;
    let mut sentinel = false;
    let mut i: usize = 0;
    while i < roles.len()
        invariant
            i <= roles.len(),
            grants == channel_role_grants(roles.deep_view()),
            ids == held.deep_view(),
            union == granted_bits(grants.take(i as int), ids),
            sentinel == administrator_held(grants.take(i as int), ids),
        decreases roles.len() - i,
    {
        let role = &roles[i];
        proof {
            assert(grants[i as int] == (role.id@, role.permissions));
            lemma_resolution_step(grants, ids, i as int);
        }
        if contains_text(held, &role.id) {
            union = union | role.permissions;
            if role.permissions == ChannelPermissions::ADMINISTRATOR {
                sentinel = true;
            }
        }
        i += 1;
    }
    assert(grants.take(i as int) == grants);
    union & permission == permission || sentinel
}

/// Answers whether the member may exercise `permission` in the guild.
pub fn check_guild_permission(
    guild: &Guild,
    member_id: &String,
    permission: GuildPermissions,
) -> (granted: bool)
    ensures
        granted == guild_permission_granted(guild@, member_id@, permission@),
{
    match guild.member_index(member_id) {
        Some(m) => {
            resolve_roles(&guild.roles, &guild.members[m].roles, permission.bits)
        },
        None => false,
    }
}

/// Answers whether the member may exercise `permission` in the channel.
pub fn check_channel_permission(
    guild: &Guild,
    channel_id: &String,
    member_id: &String,
    permission: ChannelPermissions,
) -> (granted: bool)
    ensures
        granted == channel_permission_granted(guild@, channel_id@, member_id@, permission@),
{
    let channel = match guild.channel_index(channel_id) {
        Some(c) => {
            assert(guild@.channels[c as int] == guild.channels[c as int]@);
            &guild.channels[c]
        },
        None => {
            return false;
        },
    };
    match guild.member_index(member_id) {
        Some(m) => {
            resolve_channel_roles(&channel.roles, &guild.members[m].roles, permission.bits)
        },
        None => false,
    }
}

} // verus!
