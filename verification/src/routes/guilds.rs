//! Guild lifecycle and membership: creation, editing, ownership transfer,
//! bans and deletion.

use vstd::prelude::*;
use crate::routes::{Method, Route, RouteView};
use crate::aggregate::{
    is_owner, lemma_member_position, lemma_position_by_ids, lemma_reserved_roles_differ,
    member_position, member_role, member_role_id, members_distinct, one_owner, one_owner_role,
    owner_role, owner_role_id, role_exists,
};
use crate::routes::structs::{
    clone_text, clone_texts, Channel, ChannelRole, ChannelRoleView, ChannelView, CreateGuildBody,
    Guild, GuildView, Member, MemberView, PatchGuildBody, ReturnedGuild, Role, RoleView,
};
use crate::sequences::{
    add_text, byte_length, kept_positions, lemma_filter_step, lemma_kept_positions, lemma_with_text,
    lemma_without_text, remove_text, with_text, without_text,
};
use crate::utils::ids::{fresh_id, is_uuid_text};
use crate::utils::permissions::{
    administrator, check_guild_permission, guild_permission_granted,
    lemma_guild_administrator_passes, ChannelPermissions, GuildPermissions,
};
use crate::{AppError, Status};

verus! {

/// A member record after ownership moved from `actor` to `target`: the
/// actor's record loses the owner role, the target's record has it.
pub open spec fn transfer_member(member: MemberView, actor: Seq<char>, target: Seq<char>) -> MemberView {
    let stripped = if member.id == actor {
        without_text(member.roles, owner_role())
    } else {
        member.roles
    };
    MemberView {
        roles: if member.id == target {
            with_text(stripped, owner_role())
        } else {
            stripped
        },
        ..member
    }
}

/// The guild after ownership moved from `actor` to `target`.
pub open spec fn transferred(guild: GuildView, actor: Seq<char>, target: Seq<char>) -> GuildView {
    GuildView {
        members: Seq::new(
            guild.members.len(),
            |i: int| transfer_member(guild.members[i], actor, target),
        ),
        ..guild
    }
}

/// What a transfer of ownership comes to: refused unless the actor may
/// manage the guild and is its owner, not found unless the target is a
/// member, and otherwise the guild with the owner role moved.
pub open spec fn transfer_outcome(guild: GuildView, actor: Seq<char>, target: Seq<char>) -> Result<
    GuildView,
    Status,
> {
    if !guild_permission_granted(guild, actor, GuildPermissions::MANAGE_GUILD)
        || !guild.holds_owner(actor) {
        Err(Status::Forbidden)
    } else if !guild.is_member(target) {
        Err(Status::NotFound)
    } else {
        Ok(transferred(guild, actor, target))
    }
}

/// A transfer of ownership that succeeds leaves the target as the owner
/// and, unless actor and target are one user, the actor without the owner
/// role. A well-formed guild stays well-formed: it has exactly one owner
/// before and exactly one after, with no state in between.
pub proof fn lemma_transfer_moves_ownership(guild: GuildView, actor: Seq<char>, target: Seq<char>)
    requires
        guild.well_formed(),
        transfer_outcome(guild, actor, target) is Ok,
    ensures
        transfer_outcome(guild, actor, target) == Ok::<GuildView, Status>(
            transferred(guild, actor, target),
        ),
        transferred(guild, actor, target).well_formed(),
        transferred(guild, actor, target).holds_owner(target),
        actor != target ==> !transferred(guild, actor, target).holds_owner(actor),
{
    let after = transferred(guild, actor, target);
    let before = guild.members;
    lemma_member_position(before, actor);
    lemma_member_position(before, target);
    lemma_position_by_ids(before, after.members, actor);
    lemma_position_by_ids(before, after.members, target);
    let pa = member_position(before, actor)->0;
    let pt = member_position(before, target)->0;
    let i0 = choose|i: int|
        0 <= i < before.len() && is_owner(#[trigger] before[i]) && forall|j: int|
            0 <= j < before.len() && is_owner(#[trigger] before[j]) ==> j == i;
    assert(is_owner(before[pa]));
    assert(i0 == pa);
    assert forall|j: int| 0 <= j < before.len() implies (before[j].id == actor <==> j == pa) && (
    before[j].id == target <==> j == pt) by {
        if j < pa {
            assert(before[j].id != before[pa].id);
        }
        if pa < j {
            assert(before[pa].id != before[j].id);
        }
        if j < pt {
            assert(before[j].id != before[pt].id);
        }
        if pt < j {
            assert(before[pt].id != before[j].id);
        }
    }
    assert forall|j: int| 0 <= j < before.len() implies (is_owner(#[trigger] after.members[j])
        <==> j == pt) by {
        let stripped = if before[j].id == actor {
            without_text(before[j].roles, owner_role())
        } else {
            before[j].roles
        };
        lemma_without_text(before[j].roles, owner_role());
        lemma_with_text(stripped, owner_role());
        if j != pa {
            assert(!is_owner(before[j]));
        }
    }
    assert(is_owner(after.members[pt]));
    assert(one_owner(after.members));
    let r0 = choose|k: int| 0 <= k < guild.roles.len() && (#[trigger] guild.roles[k]).id == owner_role();
    assert(role_exists(guild.roles, owner_role()));
    assert forall|m: int, r: int|
        0 <= m < after.members.len() && 0 <= r < after.members[m].roles.len() implies role_exists(
        guild.roles,
        #[trigger] after.members[m].roles[r],
    ) by {
        let stripped = if before[m].id == actor {
            without_text(before[m].roles, owner_role())
        } else {
            before[m].roles
        };
        lemma_without_text(before[m].roles, owner_role());
        lemma_with_text(stripped, owner_role());
        let t = after.members[m].roles[r];
        assert(after.members[m].roles.contains(t));
        if t != owner_role() {
            assert(before[m].roles.contains(t));
            let k = choose|k: int| 0 <= k < before[m].roles.len() && before[m].roles[k] == t;
            assert(role_exists(guild.roles, before[m].roles[k]));
        }
    }
    assert forall|m: int| 0 <= m < after.members.len() implies !after.bans.contains(
        (#[trigger] after.members[m]).id,
    ) by {
        assert(before[m].id == after.members[m].id);
    }
    assert forall|i: int, j: int| 0 <= i < j < after.members.len() implies (
    #[trigger] after.members[i]).id != (#[trigger] after.members[j]).id by {
        assert(before[i].id != before[j].id);
    }
}

/// Moves the owner role from the actor to the target in one step.
pub fn transfer_ownership(guild: &mut Guild, actor_id: &String, target_id: &String) -> (outcome:
    Result<(), AppError>)
    ensures
        match transfer_outcome(old(guild)@, actor_id@, target_id@) {
            Ok(after) => outcome is Ok && final(guild)@ == after,
            Err(status) => outcome == Err::<(), AppError>(AppError(status)) && final(guild)@ == old(guild)@,
        },
        old(guild)@.well_formed() ==> final(guild)@.well_formed(),
{
    if !check_guild_permission(
        guild,
        actor_id,
        GuildPermissions::from_bits_truncate(GuildPermissions::MANAGE_GUILD),
    ) || !guild.holds_owner(actor_id) {
        return Err(AppError(Status::Forbidden));
    }
    if !guild.is_member(target_id) {
        return Err(AppError(Status::NotFound));
    }
    let ghost before = guild@;
    let mut members: Vec<Member> = Vec::new();
    let mut i: usize = 0;
    while i < guild.members.len()
        invariant
            i <= guild.members.len(),
            guild@ == before,
            members.len() == i,
            forall|j: int|
                0 <= j < i ==> members[j]@ == transfer_member(
                    before.members[j],
                    actor_id@,
                    target_id@,
                ),
        decreases guild.members.len() - i,
    {
        let member = &guild.members[i];
        assert(before.members[i as int] == member@);
        let stripped = if member.id == *actor_id {
            remove_text(&member.roles, &owner_role_id())
        } else {
            clone_texts(&member.roles)
        };
        let roles = if member.id == *target_id {
            add_text(stripped, owner_role_id())
        } else {
            stripped
        };
        members.push(Member { id: member.id.clone(), nickname: clone_text(&member.nickname), roles });
        i += 1;
    }
    guild.members = members;
    assert(guild@.members =~= transferred(before, actor_id@, target_id@).members);
    proof {
        if before.well_formed() {
            lemma_transfer_moves_ownership(before, actor_id@, target_id@);
        }
    }
    Ok(())
}

/// Selects the member records of users other than `id`.
pub open spec fn not_user(id: Seq<char>) -> spec_fn(MemberView) -> bool {
    |member: MemberView| member.id != id
}

/// The guild after `target` was banned: the id is on the ban list, and no
/// membership record of the user is left.
pub open spec fn banned(guild: GuildView, target: Seq<char>) -> GuildView {
    GuildView {
        bans: with_text(guild.bans, target),
        members: guild.members.filter(not_user(target)),
        ..guild
    }
}

/// What a ban comes to: refused unless the actor may ban members, and
/// otherwise the guild with the target banned and evicted.
pub open spec fn ban_outcome(guild: GuildView, actor: Seq<char>, target: Seq<char>) -> Result<
    GuildView,
    Status,
> {
    if !guild_permission_granted(guild, actor, GuildPermissions::BAN_MEMBERS) {
        Err(Status::Forbidden)
    } else {
        Ok(banned(guild, target))
    }
}

/// A selection of member records holds only records that were there, keeps
/// every record that is selected, and keeps the ids distinct.
pub proof fn lemma_selected_members(members: Seq<MemberView>, keep: spec_fn(MemberView) -> bool)
    ensures
        forall|k: int|
            0 <= k < members.filter(keep).len() ==> keep(#[trigger] members.filter(keep)[k])
                && members.contains(members.filter(keep)[k]),
        forall|i: int|
            0 <= i < members.len() && keep(#[trigger] members[i]) ==> members.filter(
                keep,
            ).contains(members[i]),
        members_distinct(members) ==> members_distinct(members.filter(keep)),
{
    let kept = members.filter(keep);
    let positions = kept_positions(members, keep);
    lemma_kept_positions(members, keep);
    assert forall|k: int| 0 <= k < kept.len() implies keep(#[trigger] kept[k]) && members.contains(
        kept[k],
    ) by {
        assert(members[positions[k]] == kept[k]);
    }
    assert forall|i: int| 0 <= i < members.len() && keep(#[trigger] members[i]) implies kept.contains(
        members[i],
    ) by {
        let k = choose|k: int| 0 <= k < kept.len() && #[trigger] positions[k] == i;
        assert(kept[k] == members[i]);
    }
    if members_distinct(members) {
        assert forall|i: int, j: int| 0 <= i < j < kept.len() implies (#[trigger] kept[i]).id != (
        #[trigger] kept[j]).id by {
            assert(positions[i] < positions[j]);
            assert(members[positions[i]].id != members[positions[j]].id);
        }
    }
}

/// After a ban the banned user has no membership record and is on the ban
/// list, whoever it was.
pub proof fn lemma_ban_evicts(guild: GuildView, target: Seq<char>)
    ensures
        !banned(guild, target).is_member(target),
        banned(guild, target).bans.contains(target),
        forall|m: int|
            0 <= m < banned(guild, target).members.len() ==> (#[trigger] banned(
                guild,
                target,
            ).members[m]).id != target,
{
    let after = banned(guild, target);
    lemma_selected_members(guild.members, not_user(target));
    lemma_member_position(after.members, target);
    lemma_with_text(guild.bans, target);
}

/// A ban keeps a well-formed guild well-formed, provided the banned user is
/// not the guild's owner.
pub proof fn lemma_ban_keeps_invariants(guild: GuildView, target: Seq<char>)
    requires
        guild.well_formed(),
        !guild.holds_owner(target),
    ensures
        banned(guild, target).well_formed(),
{
    let after = banned(guild, target);
    let before = guild.members;
    let kept = after.members;
    lemma_selected_members(before, not_user(target));
    lemma_with_text(guild.bans, target);
    lemma_member_position(before, target);
    let i0 = choose|i: int|
        0 <= i < before.len() && is_owner(#[trigger] before[i]) && forall|j: int|
            0 <= j < before.len() && is_owner(#[trigger] before[j]) ==> j == i;
    if before[i0].id == target {
        let p = member_position(before, target)->0;
        if p < i0 {
            assert(before[p].id != before[i0].id);
        }
        assert(p == i0);
    }
    assert(kept.contains(before[i0]));
    let k0 = choose|k: int| 0 <= k < kept.len() && kept[k] == before[i0];
    assert forall|j: int| 0 <= j < kept.len() && is_owner(#[trigger] kept[j]) implies j == k0 by {
        assert(before.contains(kept[j]));
        let w = choose|w: int| 0 <= w < before.len() && before[w] == kept[j];
        assert(is_owner(before[w]));
        assert(w == i0);
        if j < k0 {
            assert(kept[j].id != kept[k0].id);
        }
        if k0 < j {
            assert(kept[k0].id != kept[j].id);
        }
    }
    assert(is_owner(kept[k0]));
    assert(one_owner(kept));
    assert forall|m: int, r: int|
        0 <= m < kept.len() && 0 <= r < kept[m].roles.len() implies role_exists(
        guild.roles,
        #[trigger] kept[m].roles[r],
    ) by {
        assert(before.contains(kept[m]));
        let w = choose|w: int| 0 <= w < before.len() && before[w] == kept[m];
        assert(role_exists(guild.roles, before[w].roles[r]));
    }
    assert forall|m: int| 0 <= m < kept.len() implies !after.bans.contains((#[trigger] kept[m]).id) by {
        assert(before.contains(kept[m]));
        let w = choose|w: int| 0 <= w < before.len() && before[w] == kept[m];
        assert(!guild.bans.contains(before[w].id));
    }
}

/// Bans the target: puts the id on the ban list and evicts the user.
pub fn ban_member(guild: &mut Guild, actor_id: &String, target_id: &String) -> (outcome: Result<
    (),
    AppError,
>)
    ensures
        match ban_outcome(old(guild)@, actor_id@, target_id@) {
            Ok(after) => outcome is Ok && final(guild)@ == after,
            Err(status) => outcome == Err::<(), AppError>(AppError(status)) && final(guild)@ == old(guild)@,
        },
        !old(guild)@.holds_owner(target_id@) && old(guild)@.well_formed() ==> final(guild)@.well_formed(),
        outcome is Ok ==> !final(guild)@.is_member(target_id@) && final(guild)@.bans.contains(
            target_id@,
        ),
{
    if !check_guild_permission(
        guild,
        actor_id,
        GuildPermissions::from_bits_truncate(GuildPermissions::BAN_MEMBERS),
    ) {
        return Err(AppError(Status::Forbidden));
    }
    let ghost before = guild@;
    let mut members: Vec<Member> = Vec::new();
    let mut i: usize = 0;
    proof {
        reveal(Seq::filter);
        assert(members.deep_view() =~= before.members.take(0).filter(not_user(target_id@)));
    }
    while i < guild.members.len()
        invariant
            i <= guild.members.len(),
            guild@ == before,
            members.deep_view() == before.members.take(i as int).filter(not_user(target_id@)),
        decreases guild.members.len() - i,
    {
        proof {
            lemma_filter_step(before.members, not_user(target_id@), i as int);
        }
        let member = &guild.members[i];
        assert(before.members[i as int] == member@);
        if member.id != *target_id {
            let ghost so_far = members.deep_view();
            members.push(member.clone());
            assert(members.deep_view() =~= so_far.push(member@));
        }
        i += 1;
    }
    assert(before.members.take(i as int) == before.members);
    let mut bans: Vec<String> = Vec::new();
    std::mem::swap(&mut bans, &mut guild.bans);
    guild.bans = add_text(bans, target_id.clone());
    guild.members = members;
    proof {
        lemma_ban_evicts(before, target_id@);
        if before.well_formed() && !before.holds_owner(target_id@) {
            lemma_ban_keeps_invariants(before, target_id@);
        }
    }
    Ok(())
}

/// The guild after `target` was unbanned: no occurrence of the id is left on
/// the ban list.
pub open spec fn unbanned(guild: GuildView, target: Seq<char>) -> GuildView {
    GuildView { bans: without_text(guild.bans, target), ..guild }
}

/// Selects the ids of those who may exercise `permission` in the guild.
pub open spec fn may(guild: GuildView, permission: u64) -> spec_fn(Seq<char>) -> bool {
    |id: Seq<char>| guild_permission_granted(guild, id, permission)
}

/// The ids of the members who may exercise `permission`, in the order of
/// their records.
pub open spec fn members_with_permission(guild: GuildView, permission: u64) -> Seq<Seq<char>> {
    guild.member_ids().filter(may(guild, permission))
}

/// What lifting a ban comes to: refused unless the actor may ban members,
/// and otherwise the guild without the ban.
pub open spec fn unban_outcome(guild: GuildView, actor: Seq<char>, target: Seq<char>) -> Result<
    GuildView,
    Status,
> {
    if !guild_permission_granted(guild, actor, GuildPermissions::BAN_MEMBERS) {
        Err(Status::Forbidden)
    } else {
        Ok(unbanned(guild, target))
    }
}

/// Lifting a ban keeps a well-formed guild well-formed and takes the user
/// off the ban list.
pub proof fn lemma_unban_keeps_invariants(guild: GuildView, target: Seq<char>)
    ensures
        !unbanned(guild, target).bans.contains(target),
        guild.well_formed() ==> unbanned(guild, target).well_formed(),
{
    lemma_without_text(guild.bans, target);
}

impl Guild {
    /// The ids of the members who may exercise `permission`, in the order
    /// of their records: those to notify of what only they may see.
    pub fn members_with_permission(&self, permission: GuildPermissions) -> (ids: Vec<String>)
        ensures
            ids.deep_view() == members_with_permission(self@, permission@),
    {
        let ghost all = self@.member_ids();
        let mut ids: Vec<String> = Vec::new();
        let mut i: usize = 0;
        proof {
            reveal(Seq::filter);
            assert(ids.deep_view() =~= all.take(0).filter(may(self@, permission@)));
        }
        while i < self.members.len()
            invariant
                i <= self.members.len(),
                all == self@.member_ids(),
                ids.deep_view() == all.take(i as int).filter(may(self@, permission@)),
            decreases self.members.len() - i,
        {
            proof {
                lemma_filter_step(all, may(self@, permission@), i as int);
            }
            let id = &self.members[i].id;
            assert(all[i as int] == id@);
            if check_guild_permission(self, id, permission) {
                let ghost so_far = ids.deep_view();
                ids.push(id.clone());
                assert(ids.deep_view() =~= so_far.push(id@));
            }
            i += 1;
        }
        assert(all.take(i as int) == all);
        ids
    }
}

/// Lifts the ban on the target. On success, returns the ids of the members
/// to notify: those who may ban members themselves.
pub fn del_guild_ban(guild: &mut Guild, actor_id: &String, banned_id: &String) -> (outcome: Result<
    Vec<String>,
    AppError,
>)
    ensures
        match unban_outcome(old(guild)@, actor_id@, banned_id@) {
            Ok(after) => outcome matches Ok(notify) && final(guild)@ == after
                && notify.deep_view() == members_with_permission(
                after,
                GuildPermissions::BAN_MEMBERS,
            ),
            Err(status) => outcome matches Err(e) && e == AppError(status) && final(guild)@ == old(guild)@,
        },
        old(guild)@.well_formed() ==> final(guild)@.well_formed(),
{
    if !check_guild_permission(
        guild,
        actor_id,
        GuildPermissions::from_bits_truncate(GuildPermissions::BAN_MEMBERS),
    ) {
        return Err(AppError(Status::Forbidden));
    }
    proof {
        lemma_unban_keeps_invariants(guild@, banned_id@);
    }
    guild.bans = remove_text(&guild.bans, banned_id);
    Ok(
        guild.members_with_permission(
            GuildPermissions::from_bits_truncate(GuildPermissions::BAN_MEMBERS),
        ),
    )
}

/// The ids on the guild's ban list, for an actor who may ban members.
pub fn get_guild_bans(guild: &Guild, actor_id: &String) -> (outcome: Result<Vec<String>, AppError>)
    ensures
        match outcome {
            Ok(bans) => guild_permission_granted(guild@, actor_id@, GuildPermissions::BAN_MEMBERS)
                && bans.deep_view() == guild@.bans,
            Err(e) => !guild_permission_granted(guild@, actor_id@, GuildPermissions::BAN_MEMBERS)
                && e == AppError(Status::Forbidden),
        },
{
    if !check_guild_permission(
        guild,
        actor_id,
        GuildPermissions::from_bits_truncate(GuildPermissions::BAN_MEMBERS),
    ) {
        return Err(AppError(Status::Forbidden));
    }
    Ok(clone_texts(&guild.bans))
}

/// What the guild shows of itself to one of its members; to anyone else
/// the guild is not found.
pub fn get_guild(guild: &Guild, user_id: &String) -> (outcome: Result<ReturnedGuild, AppError>)
    ensures
        match outcome {
            Ok(shown) => guild@.is_member(user_id@) && shown@ == guild@.preview(),
            Err(e) => !guild@.is_member(user_id@) && e == AppError(Status::NotFound),
        },
{
    if !guild.is_member(user_id) {
        return Err(AppError(Status::NotFound));
    }
    Ok(guild.preview())
}

/// Decides the deletion of the guild, which only its owner may ask for.
/// On success, returns the ids of all members as they are at this moment:
/// those to notify once the guild is gone.
pub fn del_guild(guild: &Guild, actor_id: &String) -> (outcome: Result<Vec<String>, AppError>)
    ensures
        match outcome {
            Ok(notify) => guild@.holds_owner(actor_id@) && notify.deep_view() == guild@.member_ids(),
            Err(e) => !guild@.holds_owner(actor_id@) && e == AppError(Status::Forbidden),
        },
{
    if !guild.holds_owner(actor_id) {
        return Err(AppError(Status::Forbidden));
    }
    Ok(guild.member_ids())
}

/// Longest guild name, in bytes.
pub const MAX_NAME_BYTES: usize = 30;

/// Longest guild description, in bytes.
pub const MAX_DESCRIPTION_BYTES: usize = 1000;

/// What every member may do in a new guild.
pub open spec fn default_member_permissions() -> u64 {
    GuildPermissions::CREATE_INVITE | GuildPermissions::CHANGE_NICKNAME
}

/// What every member may do in a new guild's first channel.
pub open spec fn default_channel_permissions() -> u64 {
    ChannelPermissions::VIEW_CHANNEL | ChannelPermissions::SEND_MESSAGES
}

/// The first channel of a new guild: a text channel named `general` in
/// which owners administer and members may read and write.
pub open spec fn first_channel(id: Seq<char>, now: i64) -> ChannelView {
    ChannelView {
        id,
        name: "general"@,
        topic: None,
        kind: "text"@,
        creation: now,
        roles: seq![
            ChannelRoleView { id: owner_role(), permissions: administrator() },
            ChannelRoleView { id: member_role(), permissions: default_channel_permissions() },
        ],
        messages: Seq::empty(),
        pins: Seq::empty(),
    }
}

/// A new guild: private, with one channel, the owner and member roles, and
/// the founder as its only member, holding both roles.
pub open spec fn founded(
    id: Seq<char>,
    channel_id: Seq<char>,
    name: Seq<char>,
    description: Option<Seq<char>>,
    founder: Seq<char>,
    now: i64,
) -> GuildView {
    GuildView {
        id,
        name,
        description,
        icon: None,
        public: false,
        channels: seq![first_channel(channel_id, now)],
        roles: seq![
            RoleView {
                id: owner_role(),
                name: "Owner"@,
                color: None,
                hoist: false,
                permissions: administrator(),
            },
            RoleView {
                id: member_role(),
                name: "Members"@,
                color: None,
                hoist: false,
                permissions: default_member_permissions(),
            },
        ],
        members: seq![
            MemberView { id: founder, nickname: None, roles: seq![owner_role(), member_role()] },
        ],
        creation: now,
        bans: Seq::empty(),
        invites: Seq::empty(),
    }
}

/// A new guild is well-formed, and its founder is its owner and may do
/// everything in it.
pub proof fn lemma_founded_guild(
    id: Seq<char>,
    channel_id: Seq<char>,
    name: Seq<char>,
    description: Option<Seq<char>>,
    founder: Seq<char>,
    now: i64,
)
    ensures
        founded(id, channel_id, name, description, founder, now).well_formed(),
        founded(id, channel_id, name, description, founder, now).holds_owner(founder),
        forall|permission: u64|
            guild_permission_granted(
                founded(id, channel_id, name, description, founder, now),
                founder,
                permission,
            ),
{
    let guild = founded(id, channel_id, name, description, founder, now);
    lemma_reserved_roles_differ();
    lemma_member_position(guild.members, founder);
    assert(guild.members[0].id == founder);
    assert(guild.members[0].roles[0] == owner_role());
    assert(guild.members[0].roles[1] == member_role());
    assert(is_owner(guild.members[0]));
    assert(guild.roles[0].id == owner_role());
    assert(guild.roles[1].id == member_role());
    assert(one_owner_role(guild.roles));
    assert(one_owner(guild.members));
    assert forall|m: int, r: int|
        0 <= m < guild.members.len() && 0 <= r < guild.members[m].roles.len() implies role_exists(
        guild.roles,
        #[trigger] guild.members[m].roles[r],
    ) by {
        assert(guild.roles[r].id == guild.members[m].roles[r]);
    }
    assert forall|permission: u64| guild_permission_granted(guild, founder, permission) by {
        lemma_guild_administrator_passes(guild, founder, permission);
    }
}

/// Makes the guild that `user_id` founds under the given ids. A name longer
/// than 30 bytes is a bad request.
pub fn new_guild(
    id: String,
    channel_id: String,
    body: &CreateGuildBody,
    user_id: &String,
    now: i64,
) -> (outcome: Result<Guild, AppError>)
    ensures
        match outcome {
            Ok(guild) => byte_length(body.name@) <= MAX_NAME_BYTES && guild@ == founded(
                id@,
                channel_id@,
                body.name@,
                body.description.deep_view(),
                user_id@,
                now,
            ) && guild@.well_formed(),
            Err(e) => byte_length(body.name@) > MAX_NAME_BYTES && e == AppError(Status::BadRequest),
        },
{
    if body.name.as_str().len() > MAX_NAME_BYTES {
        return Err(AppError(Status::BadRequest));
    }
    let mut channel_roles: Vec<ChannelRole> = Vec::new();
    channel_roles.push(
        ChannelRole { id: owner_role_id(), permissions: ChannelPermissions::ADMINISTRATOR },
    );
    channel_roles.push(
        ChannelRole {
            id: member_role_id(),
            permissions: ChannelPermissions::VIEW_CHANNEL | ChannelPermissions::SEND_MESSAGES,
        },
    );
    let channel = Channel {
        id: channel_id,
        name: String::from_str("general"),
        topic: None,
        kind: String::from_str("text"),
        creation: now,
        roles: channel_roles,
        messages: Vec::new(),
        pins: Vec::new(),
    };
    assert(channel@.roles =~= first_channel(channel_id@, now).roles);
    assert(channel@.messages =~= first_channel(channel_id@, now).messages);
    assert(channel@.pins =~= first_channel(channel_id@, now).pins);
    let mut channels: Vec<Channel> = Vec::new();
    channels.push(channel);
    let mut roles: Vec<Role> = Vec::new();
    roles.push(
        Role {
            id: owner_role_id(),
            name: String::from_str("Owner"),
            color: None,
            hoist: false,
            permissions: GuildPermissions::ADMINISTRATOR,
        },
    );
    roles.push(
        Role {
            id: member_role_id(),
            name: String::from_str("Members"),
            color: None,
            hoist: false,
            permissions: GuildPermissions::CREATE_INVITE | GuildPermissions::CHANGE_NICKNAME,
        },
    );
    let mut held: Vec<String> = Vec::new();
    held.push(owner_role_id());
    held.push(member_role_id());
    let mut members: Vec<Member> = Vec::new();
    members.push(Member { id: user_id.clone(), nickname: None, roles: held });
    let guild = Guild {
        id,
        name: body.name.clone(),
        description: clone_text(&body.description),
        icon: None,
        public: false,
        channels,
        roles,
        members,
        creation: now,
        bans: Vec::new(),
        invites: Vec::new(),
    };
    proof {
        let model = founded(
            id@,
            channel_id@,
            body.name@,
            body.description.deep_view(),
            user_id@,
            now,
        );
        assert(guild@.members[0].roles =~= model.members[0].roles);
        assert(guild@.channels =~= model.channels);
        assert(guild@.roles =~= model.roles);
        assert(guild@.members =~= model.members);
        assert(guild@.bans =~= model.bans);
        assert(guild@.invites =~= model.invites);
        lemma_founded_guild(
            id@,
            channel_id@,
            body.name@,
            body.description.deep_view(),
            user_id@,
            now,
        );
    }
    Ok(guild)
}

/// Founds a guild for `user_id` under fresh ids. A name longer than 30 bytes
/// is a bad request; otherwise the guild is the one that [`new_guild`] makes
/// under the ids it carries.
pub fn create_guild(body: &CreateGuildBody, user_id: &String, now: i64) -> (outcome: Result<
    Guild,
    AppError,
>)
    ensures
        match outcome {
            Ok(guild) => byte_length(body.name@) <= MAX_NAME_BYTES && guild@ == founded(
                guild@.id,
                guild@.channels[0].id,
                body.name@,
                body.description.deep_view(),
                user_id@,
                now,
            ) && is_uuid_text(guild@.id) && is_uuid_text(guild@.channels[0].id)
                && guild@.well_formed(),
            Err(e) => byte_length(body.name@) > MAX_NAME_BYTES && e == AppError(Status::BadRequest),
        },
{
    let id = fresh_id();
    let channel_id = fresh_id();
    new_guild(id, channel_id, body, user_id, now)
}

/// The guild with the given fields of its profile replaced.
pub open spec fn patched(
    guild: GuildView,
    name: Option<Seq<char>>,
    description: Option<Seq<char>>,
    public: Option<bool>,
) -> GuildView {
    GuildView {
        name: match name {
            Some(name) => name,
            None => guild.name,
        },
        description: match description {
            Some(description) => Some(description),
            None => guild.description,
        },
        public: match public {
            Some(public) => public,
            None => guild.public,
        },
        ..guild
    }
}

/// Whether a change of profile asks for a name or a description that is too long.
pub open spec fn patch_too_long(name: Option<Seq<char>>, description: Option<Seq<char>>) -> bool {
    ||| name matches Some(name) && byte_length(name) > MAX_NAME_BYTES
    ||| description matches Some(description) && byte_length(description) > MAX_DESCRIPTION_BYTES
}

/// What an edit of the guild comes to. Overlong fields are a bad request; an
/// actor who may not manage the guild is refused; a new owner, if one is
/// named, is installed as by a transfer of ownership, with its failures;
/// and then the profile is replaced.
pub open spec fn update_outcome(
    guild: GuildView,
    actor: Seq<char>,
    name: Option<Seq<char>>,
    description: Option<Seq<char>>,
    public: Option<bool>,
    owner: Option<Seq<char>>,
) -> Result<GuildView, Status> {
    if patch_too_long(name, description) {
        Err(Status::BadRequest)
    } else if !guild_permission_granted(guild, actor, GuildPermissions::MANAGE_GUILD) {
        Err(Status::Forbidden)
    } else {
        match owner {
            Some(target) => match transfer_outcome(guild, actor, target) {
                Ok(moved) => Ok(patched(moved, name, description, public)),
                Err(status) => Err(status),
            },
            None => Ok(patched(guild, name, description, public)),
        }
    }
}

/// Edits the guild's profile and, if asked, hands the guild to a new owner,
/// all or nothing. On success, returns what the guild now shows of itself.
pub fn update_guild(guild: &mut Guild, actor_id: &String, body: &PatchGuildBody) -> (outcome: Result<
    ReturnedGuild,
    AppError,
>)
    ensures
        match update_outcome(
            old(guild)@,
            actor_id@,
            body.name.deep_view(),
            body.description.deep_view(),
            body.public,
            body.owner.deep_view(),
        ) {
            Ok(after) => outcome matches Ok(shown) && shown@ == after.preview() && final(guild)@
                == after,
            Err(status) => outcome matches Err(e) && e == AppError(status) && final(guild)@ == old(guild)@,
        },
        old(guild)@.well_formed() ==> final(guild)@.well_formed(),
{
    let name_too_long = match &body.name {
        Some(name) => name.as_str().len() > MAX_NAME_BYTES,
        None => false,
    };
    let description_too_long = match &body.description {
        Some(description) => description.as_str().len() > MAX_DESCRIPTION_BYTES,
        None => false,
    };
    if name_too_long || description_too_long {
        return Err(AppError(Status::BadRequest));
    }
    if !check_guild_permission(
        guild,
        actor_id,
        GuildPermissions::from_bits_truncate(GuildPermissions::MANAGE_GUILD),
    ) {
        return Err(AppError(Status::Forbidden));
    }
    match &body.owner {
        Some(target_id) => {
            match transfer_ownership(guild, actor_id, target_id) {
                Ok(()) => {},
                Err(e) => {
                    return Err(e);
                },
            }
        },
        None => {},
    }
    match &body.name {
        Some(name) => {
            guild.name = name.clone();
        },
        None => {},
    }
    match &body.description {
        Some(description) => {
            guild.description = Some(description.clone());
        },
        None => {},
    }
    match body.public {
        Some(public) => {
            guild.public = public;
        },
        None => {},
    }
    Ok(guild.preview())
}

/// The endpoints for a guild's lifecycle and its bans.
pub open spec fn guild_routes() -> Seq<RouteView> {
    seq![
        RouteView { method: Method::Get, uri: "/guilds/<guild_id>"@, name: "get_guild"@ },
        RouteView { method: Method::Post, uri: "/guilds"@, name: "create_guild"@ },
        RouteView { method: Method::Patch, uri: "/guilds/<guild_id>"@, name: "update_guild"@ },
        RouteView { method: Method::Delete, uri: "/guilds/<guild_id>"@, name: "del_guild"@ },
        RouteView { method: Method::Get, uri: "/guilds/<guild_id>/bans"@, name: "get_guild_bans"@ },
        RouteView { method: Method::Put, uri: "/guilds/<guild_id>/bans/<banned_id>"@, name: "ban_member"@ },
        RouteView { method: Method::Delete, uri: "/guilds/<guild_id>/bans/<banned_id>"@, name: "del_guild_ban"@ },
    ]
}

/// The guild endpoints.
pub fn get_routes() -> (routes: Vec<Route>)
    ensures
        routes.deep_view() == guild_routes(),
{
    let mut routes: Vec<Route> = Vec::new();
    routes.push(Route { method: Method::Get, uri: "/guilds/<guild_id>", name: "get_guild" });
    routes.push(Route { method: Method::Post, uri: "/guilds", name: "create_guild" });
    routes.push(Route { method: Method::Patch, uri: "/guilds/<guild_id>", name: "update_guild" });
    routes.push(Route { method: Method::Delete, uri: "/guilds/<guild_id>", name: "del_guild" });
    routes.push(Route { method: Method::Get, uri: "/guilds/<guild_id>/bans", name: "get_guild_bans" });
    routes.push(Route { method: Method::Put, uri: "/guilds/<guild_id>/bans/<banned_id>", name: "ban_member" });
    routes.push(Route { method: Method::Delete, uri: "/guilds/<guild_id>/bans/<banned_id>", name: "del_guild_ban" });
    assert(routes.deep_view() =~= guild_routes());
    routes
}

} // verus!
