//! The invite ledger: issuing, resolving, consuming and withdrawing invites.
//!
//! An invite can be used while it has uses left and has not expired. Joining
//! by an invite appends the member and counts the use in one step, so the
//! count never passes the cap.

use vstd::prelude::*;
use crate::routes::{Method, Route, RouteView};
use crate::aggregate::{
    invites_distinct, is_owner, lemma_member_position, lemma_reserved_roles_differ,
    member_position, member_role, member_role_id, owner_role, role_exists,
};
use crate::routes::structs::{
    CreateInviteBody, Guild, GuildView, Invite, InviteView, Member, MemberView, ReturnedGuild,
};
use crate::sequences::{contains_text, kept_positions, lemma_filter_step, lemma_kept_positions};
use crate::utils::ids::{fresh_id, is_uuid_text};
use crate::utils::permissions::{check_guild_permission, guild_permission_granted, GuildPermissions};
use crate::{AppError, Status};

verus! {

/// Whether the invite answers to the code, has uses left and has not expired.
pub open spec fn usable(invite: InviteView, code: Seq<char>, now: i64) -> bool {
    invite.code == code && invite.uses < invite.max_uses && invite.expiration > now
}

/// Position of the first invite that can be used under this code, if there is one.
pub open spec fn usable_position(invites: Seq<InviteView>, code: Seq<char>, now: i64) -> Option<int>
    decreases invites.len(),
{
    if invites.len() == 0 {
        None
    } else if usable(invites.last(), code, now) && usable_position(invites.drop_last(), code, now)
        is None {
        Some(invites.len() - 1)
    } else {
        usable_position(invites.drop_last(), code, now)
    }
}

/// `usable_position` finds an invite exactly when one can be used under the
/// code, and then the earliest such invite.
pub proof fn lemma_usable_position(invites: Seq<InviteView>, code: Seq<char>, now: i64)
    ensures
        usable_position(invites, code, now) is None <==> forall|i: int|
            0 <= i < invites.len() ==> !usable(#[trigger] invites[i], code, now),
        usable_position(invites, code, now) matches Some(p) ==> {
            &&& 0 <= p < invites.len()
            &&& usable(invites[p], code, now)
            &&& forall|i: int| 0 <= i < p ==> !usable(#[trigger] invites[i], code, now)
        },
    decreases invites.len(),
{
    if invites.len() > 0 {
        let front = invites.drop_last();
        lemma_usable_position(front, code, now);
        assert(forall|i: int| 0 <= i < front.len() ==> front[i] == invites[i]);
        if usable_position(front, code, now) is None {
            assert forall|i: int| 0 <= i < invites.len() - 1 implies !usable(
                #[trigger] invites[i],
                code,
                now,
            ) by {
                assert(!usable(front[i], code, now));
            }
        } else {
            let p = usable_position(front, code, now)->0;
            assert(usable(invites[p], code, now));
        }
    }
}

/// Whether the invite code admits the user right now: an invite can be
/// used under it, and the user is not banned from the guild.
pub open spec fn invite_valid(guild: GuildView, code: Seq<char>, now: i64, user: Seq<char>) -> bool {
    usable_position(guild.invites, code, now) is Some && !guild.bans.contains(user)
}

/// The invite with one more use counted.
pub open spec fn used_once(invite: InviteView) -> InviteView {
    InviteView { uses: (invite.uses + 1) as usize, ..invite }
}

/// The record of someone who joined by invite: the member role and nothing else.
pub open spec fn plain_member(user: Seq<char>) -> MemberView {
    MemberView { id: user, nickname: None, roles: seq![member_role()] }
}

/// The guild after `user` joined by the invite at position `p`.
pub open spec fn joined(guild: GuildView, p: int, user: Seq<char>) -> GuildView {
    GuildView {
        members: guild.members.push(plain_member(user)),
        invites: guild.invites.update(p, used_once(guild.invites[p])),
        ..guild
    }
}

/// What joining by invite comes to: the guild with the user as a plain
/// member and one more use counted on the first usable invite; not found
/// when no invite can be used under the code, when the user is banned, or
/// when the user is a member already.
pub open spec fn join_outcome(guild: GuildView, code: Seq<char>, user: Seq<char>, now: i64) -> Result<
    GuildView,
    Status,
> {
    if invite_valid(guild, code, now, user) && !guild.is_member(user) {
        Ok(joined(guild, usable_position(guild.invites, code, now)->0, user))
    } else {
        Err(Status::NotFound)
    }
}

/// Joining by invite counts exactly one use, keeps the count within the
/// cap, makes the user a member who holds the member role only, and keeps
/// a well-formed guild well-formed.
pub proof fn lemma_join_counts_one_use(guild: GuildView, code: Seq<char>, user: Seq<char>, now: i64)
    requires
        join_outcome(guild, code, user, now) is Ok,
    ensures
        ({
            let p = usable_position(guild.invites, code, now)->0;
            let after = join_outcome(guild, code, user, now)->Ok_0;
            &&& 0 <= p < guild.invites.len()
            &&& after.invites.len() == guild.invites.len()
            &&& after.invites[p].uses == guild.invites[p].uses + 1
            &&& after.invites[p].uses <= after.invites[p].max_uses
            &&& forall|i: int|
                0 <= i < guild.invites.len() && i != p ==> after.invites[i] == guild.invites[i]
            &&& after.is_member(user)
            &&& after.held_roles(user) == Some(seq![member_role()])
            &&& !after.holds_owner(user)
            &&& guild.well_formed() ==> after.well_formed()
        }),
{
    let p = usable_position(guild.invites, code, now)->0;
    let after = joined(guild, p, user);
    lemma_usable_position(guild.invites, code, now);
    lemma_member_position(guild.members, user);
    lemma_member_position(after.members, user);
    lemma_reserved_roles_differ();
    let n = guild.members.len() as int;
    assert(after.members[n] == plain_member(user));
    assert forall|i: int| 0 <= i < n implies (#[trigger] after.members[i]).id != user by {
        assert(after.members[i] == guild.members[i]);
    }
    assert(member_position(after.members, user) == Some(n));
    let held = seq![member_role()];
    assert(held[0] == member_role());
    if held.contains(owner_role()) {
        let k = choose|k: int| 0 <= k < held.len() && held[k] == owner_role();
        assert(held[k] == member_role());
    }
    if guild.well_formed() {
        let i0 = choose|i: int|
            0 <= i < guild.members.len() && is_owner(#[trigger] guild.members[i]) && forall|j: int|
                0 <= j < guild.members.len() && is_owner(#[trigger] guild.members[j]) ==> j == i;
        assert(after.members[i0] == guild.members[i0]);
        assert forall|j: int| 0 <= j < after.members.len() && is_owner(
            #[trigger] after.members[j],
        ) implies j == i0 by {
            if j < n {
                assert(after.members[j] == guild.members[j]);
            }
        }
        assert forall|m: int, r: int|
            0 <= m < after.members.len() && 0 <= r < after.members[m].roles.len() implies role_exists(
            guild.roles,
            #[trigger] after.members[m].roles[r],
        ) by {
            if m < n {
                assert(after.members[m] == guild.members[m]);
                assert(role_exists(guild.roles, guild.members[m].roles[r]));
            }
        }
        assert forall|m: int| 0 <= m < after.members.len() implies !after.bans.contains(
            (#[trigger] after.members[m]).id,
        ) by {
            if m < n {
                assert(after.members[m] == guild.members[m]);
            }
        }
        assert forall|i: int, j: int| 0 <= i < j < after.members.len() implies (
        #[trigger] after.members[i]).id != (#[trigger] after.members[j]).id by {
            assert(after.members[i] == guild.members[i]);
            if j < n {
                assert(after.members[j] == guild.members[j]);
            }
        }
        assert forall|i: int, j: int| 0 <= i < j < after.invites.len() implies (
        #[trigger] after.invites[i]).code != (#[trigger] after.invites[j]).code by {
            assert(guild.invites[i].code != guild.invites[j].code);
        }
    }
}

/// Once no invite under a code has a use left, nobody joins by that code
/// any more, whoever asks and whenever.
pub proof fn lemma_exhausted_code_admits_nobody(
    guild: GuildView,
    code: Seq<char>,
    user: Seq<char>,
    now: i64,
)
    requires
        forall|i: int|
            0 <= i < guild.invites.len() && (#[trigger] guild.invites[i]).code == code
                ==> guild.invites[i].uses >= guild.invites[i].max_uses,
    ensures
        join_outcome(guild, code, user, now) == Err::<GuildView, Status>(Status::NotFound),
        !invite_valid(guild, code, now, user),
{
    lemma_usable_position(guild.invites, code, now);
}

/// An invite that allows one use admits one user: after a join under its
/// code, every further join under that code is not found, provided the
/// guild's invite codes are distinct.
pub proof fn lemma_single_use_invite_admits_once(
    guild: GuildView,
    code: Seq<char>,
    first: Seq<char>,
    now: i64,
    second: Seq<char>,
    later: i64,
)
    requires
        invites_distinct(guild.invites),
        join_outcome(guild, code, first, now) is Ok,
        guild.invites[usable_position(guild.invites, code, now)->0].max_uses == 1,
    ensures
        join_outcome(join_outcome(guild, code, first, now)->Ok_0, code, second, later) == Err::<
            GuildView,
            Status,
        >(Status::NotFound),
{
    let p = usable_position(guild.invites, code, now)->0;
    let after = joined(guild, p, first);
    lemma_usable_position(guild.invites, code, now);
    assert forall|i: int|
        0 <= i < after.invites.len() && (#[trigger] after.invites[i]).code == code implies after.invites[i].uses
        >= after.invites[i].max_uses by {
        if i < p {
            assert(guild.invites[i].code != guild.invites[p].code);
        }
        if p < i {
            assert(guild.invites[p].code != guild.invites[i].code);
        }
    }
    lemma_exhausted_code_admits_nobody(after, code, second, later);
}

/// An attempt to join: who asks, and when.
pub type Attempt = (Seq<char>, i64);

/// The guild after the attempts to join under `code` ran one after the
/// other, each on what the ones before it left.
pub open spec fn after_attempts(guild: GuildView, code: Seq<char>, attempts: Seq<Attempt>) -> GuildView
    decreases attempts.len(),
{
    if attempts.len() == 0 {
        guild
    } else {
        let before = after_attempts(guild, code, attempts.drop_last());
        match join_outcome(before, code, attempts.last().0, attempts.last().1) {
            Ok(after) => after,
            Err(_) => before,
        }
    }
}

/// How many of the attempts to join under `code` succeed when they run one
/// after the other.
pub open spec fn admitted(guild: GuildView, code: Seq<char>, attempts: Seq<Attempt>) -> nat
    decreases attempts.len(),
{
    if attempts.len() == 0 {
        0
    } else {
        let before = after_attempts(guild, code, attempts.drop_last());
        let earlier = admitted(guild, code, attempts.drop_last());
        if join_outcome(before, code, attempts.last().0, attempts.last().1) is Ok {
            earlier + 1
        } else {
            earlier
        }
    }
}

/// The uses that the invite still offers under the code: none if it answers
/// to another code or is used up.
pub open spec fn offered_uses(invite: InviteView, code: Seq<char>) -> int {
    if invite.code == code && invite.uses < invite.max_uses {
        invite.max_uses - invite.uses
    } else {
        0
    }
}

/// The uses that are left under the code, over all invites.
pub open spec fn uses_left(invites: Seq<InviteView>, code: Seq<char>) -> int
    decreases invites.len(),
{
    if invites.len() == 0 {
        0
    } else {
        uses_left(invites.drop_last(), code) + offered_uses(invites.last(), code)
    }
}

/// Counting a use on an invite that offers one takes one from the uses
/// that are left under its code.
proof fn lemma_use_takes_one(invites: Seq<InviteView>, p: int, code: Seq<char>)
    requires
        0 <= p < invites.len(),
        invites[p].code == code,
        invites[p].uses < invites[p].max_uses,
    ensures
        uses_left(invites.update(p, used_once(invites[p])), code) == uses_left(invites, code) - 1,
    decreases invites.len(),
{
    let counted = invites.update(p, used_once(invites[p]));
    if p == invites.len() - 1 {
        assert(counted.drop_last() == invites.drop_last());
    } else {
        assert(counted.drop_last() == invites.drop_last().update(p, used_once(invites[p])));
        assert(invites.drop_last()[p] == invites[p]);
        lemma_use_takes_one(invites.drop_last(), p, code);
    }
}

/// Of the attempts to join under a code, no more are admitted than the
/// code had uses left: each one that is admitted takes exactly one use,
/// and the others take none.
pub proof fn lemma_admitted_within_capacity(
    guild: GuildView,
    code: Seq<char>,
    attempts: Seq<Attempt>,
)
    ensures
        admitted(guild, code, attempts) + uses_left(after_attempts(guild, code, attempts).invites, code)
            == uses_left(guild.invites, code),
        uses_left(after_attempts(guild, code, attempts).invites, code) >= 0,
        admitted(guild, code, attempts) <= uses_left(guild.invites, code),
    decreases attempts.len(),
{
    if attempts.len() > 0 {
        let earlier = attempts.drop_last();
        lemma_admitted_within_capacity(guild, code, earlier);
        let before = after_attempts(guild, code, earlier);
        let (user, now) = attempts.last();
        if join_outcome(before, code, user, now) is Ok {
            let p = usable_position(before.invites, code, now)->0;
            lemma_usable_position(before.invites, code, now);
            lemma_use_takes_one(before.invites, p, code);
        }
    }
    lemma_uses_left_nonnegative(after_attempts(guild, code, attempts).invites, code);
}

/// The uses that are left are never negative.
proof fn lemma_uses_left_nonnegative(invites: Seq<InviteView>, code: Seq<char>)
    ensures
        uses_left(invites, code) >= 0,
    decreases invites.len(),
{
    if invites.len() > 0 {
        lemma_uses_left_nonnegative(invites.drop_last(), code);
    }
}

/// However many attempts race for an invite that allows one use, exactly
/// one is admitted: the first succeeds, and every other one is not found
/// and changes nothing.
pub proof fn lemma_single_use_invite_admits_exactly_one(
    guild: GuildView,
    code: Seq<char>,
    attempts: Seq<Attempt>,
)
    requires
        invites_distinct(guild.invites),
        attempts.len() >= 1,
        join_outcome(guild, code, attempts[0].0, attempts[0].1) is Ok,
        guild.invites[usable_position(guild.invites, code, attempts[0].1)->0].max_uses == 1,
    ensures
        admitted(guild, code, attempts) == 1,
        after_attempts(guild, code, attempts) == join_outcome(
            guild,
            code,
            attempts[0].0,
            attempts[0].1,
        )->Ok_0,
        forall|k: int|
            1 <= k < attempts.len() ==> join_outcome(
                after_attempts(guild, code, #[trigger] attempts.take(k)),
                code,
                attempts[k].0,
                attempts[k].1,
            ) == Err::<GuildView, Status>(Status::NotFound),
    decreases attempts.len(),
{
    let earlier = attempts.drop_last();
    lemma_usable_position(guild.invites, code, attempts[0].1);
    if attempts.len() == 1 {
        assert(earlier.len() == 0);
        assert(attempts.last() == attempts[0]);
        assert(after_attempts(guild, code, earlier) == guild);
        assert(admitted(guild, code, earlier) == 0);
    } else {
        assert(earlier[0] == attempts[0]);
        lemma_single_use_invite_admits_exactly_one(guild, code, earlier);
        let n = attempts.len() - 1;
        lemma_single_use_invite_admits_once(
            guild,
            code,
            attempts[0].0,
            attempts[0].1,
            attempts[n].0,
            attempts[n].1,
        );
        assert(attempts.last() == attempts[n]);
        assert(join_outcome(
            after_attempts(guild, code, earlier),
            code,
            attempts[n].0,
            attempts[n].1,
        ) is Err);
        assert forall|k: int| 1 <= k < attempts.len() implies join_outcome(
            after_attempts(guild, code, #[trigger] attempts.take(k)),
            code,
            attempts[k].0,
            attempts[k].1,
        ) == Err::<GuildView, Status>(Status::NotFound) by {
            if k < n {
                assert(attempts.take(k) == earlier.take(k));
                assert(earlier[k] == attempts[k]);
            } else {
                assert(attempts.take(k) == earlier);
            }
        }
    }
}

impl Guild {
    /// Index of the first invite that can be used under this code, if there is one.
    pub fn usable_invite_index(&self, code: &String, now: i64) -> (found: Option<usize>)
        ensures
            found is Some <==> usable_position(self@.invites, code@, now) is Some,
            found matches Some(i) ==> {
                &&& i < self.invites.len()
                &&& usable(self.invites[i as int]@, code@, now)
                &&& usable_position(self@.invites, code@, now) == Some(i as int)
            },
    {
        let mut i: usize = 0;
        while i < self.invites.len()
            invariant
                i <= self.invites.len(),
                forall|j: int| 0 <= j < i ==> !usable(self.invites[j]@, code@, now),
            decreases self.invites.len() - i,
        {
            let invite = &self.invites[i];
            if invite.code == *code && invite.uses < invite.max_uses && invite.expiration > now {
                proof {
                    lemma_usable_position(self@.invites, code@, now);
                    assert(self@.invites[i as int] == self.invites[i as int]@);
                    assert forall|j: int| 0 <= j < i implies !usable(
                        #[trigger] self@.invites[j],
                        code@,
                        now,
                    ) by {
                        assert(!usable(self.invites[j]@, code@, now));
                    }
                }
                return Some(i);
            }
            i += 1;
        }
        proof {
            lemma_usable_position(self@.invites, code@, now);
            assert forall|j: int| 0 <= j < self@.invites.len() implies !usable(
                #[trigger] self@.invites[j],
                code@,
                now,
            ) by {
                assert(!usable(self.invites[j]@, code@, now));
            }
        }
        None
    }
}

/// Resolves an invite code for a user without changing anything: what the
/// guild shows of itself if the code admits the user right now, and not
/// found otherwise.
pub fn get_invite(guild: &Guild, invite_code: &String, now: i64, user_id: &String) -> (outcome:
    Result<ReturnedGuild, AppError>)
    ensures
        match outcome {
            Ok(shown) => invite_valid(guild@, invite_code@, now, user_id@) && shown@
                == guild@.preview(),
            Err(e) => !invite_valid(guild@, invite_code@, now, user_id@) && e == AppError(
                Status::NotFound,
            ),
        },
{
    if guild.usable_invite_index(invite_code, now).is_none() || contains_text(&guild.bans, user_id) {
        return Err(AppError(Status::NotFound));
    }
    Ok(guild.preview())
}

/// Joins the guild by invite: appends the user as a plain member and counts
/// one use, both or neither. On success, returns what the guild shows of
/// itself with the new member counted.
pub fn join_invite(guild: &mut Guild, invite_code: &String, user_id: &String, now: i64) -> (outcome:
    Result<ReturnedGuild, AppError>)
    ensures
        match join_outcome(old(guild)@, invite_code@, user_id@, now) {
            Ok(after) => outcome matches Ok(shown) && shown@ == after.preview() && final(guild)@
                == after,
            Err(status) => outcome matches Err(e) && e == AppError(status) && final(guild)@ == old(guild)@,
        },
        old(guild)@.well_formed() ==> final(guild)@.well_formed(),
{
    let p = match guild.usable_invite_index(invite_code, now) {
        Some(p) => p,
        None => {
            return Err(AppError(Status::NotFound));
        },
    };
    if contains_text(&guild.bans, user_id) || guild.is_member(user_id) {
        return Err(AppError(Status::NotFound));
    }
    let ghost before = guild@;
    proof {
        lemma_join_counts_one_use(before, invite_code@, user_id@, now);
    }
    let invite = &guild.invites[p];
    assert(before.invites[p as int] == invite@);
    let counted = Invite {
        code: invite.code.clone(),
        author: invite.author.clone(),
        expiration: invite.expiration,
        max_uses: invite.max_uses,
        uses: invite.uses + 1,
    };
    guild.invites.set(p, counted);
    let mut roles: Vec<String> = Vec::new();
    roles.push(member_role_id());
    let member = Member { id: user_id.clone(), nickname: None, roles };
    assert(member@.roles =~= plain_member(user_id@).roles);
    guild.members.push(member);
    assert(guild@.members =~= joined(before, p as int, user_id@).members);
    assert(guild@.invites =~= joined(before, p as int, user_id@).invites);
    Ok(guild.preview())
}

/// Whether one of the invites answers to the code.
pub open spec fn code_taken(invites: Seq<InviteView>, code: Seq<char>) -> bool {
    exists|i: int| 0 <= i < invites.len() && (#[trigger] invites[i]).code == code
}

/// The invite that `author` issues under `code`: unused, and expiring
/// `ttl` seconds from `now`.
pub open spec fn issued(code: Seq<char>, author: Seq<char>, ttl: i64, max_uses: usize, now: i64) -> InviteView {
    InviteView { code, author, expiration: (now + ttl) as i64, max_uses, uses: 0 }
}

/// What issuing an invite under a given code comes to: refused unless the
/// actor may create invites; a bad request when the expiration lies beyond
/// what the clock can count; a conflict when the code is in use already;
/// and otherwise the guild with the new invite appended.
pub open spec fn add_invite_outcome(
    guild: GuildView,
    actor: Seq<char>,
    code: Seq<char>,
    ttl: i64,
    max_uses: usize,
    now: i64,
) -> Result<GuildView, Status> {
    if !guild_permission_granted(guild, actor, GuildPermissions::CREATE_INVITE) {
        Err(Status::Forbidden)
    } else if now + ttl < i64::MIN || now + ttl > i64::MAX {
        Err(Status::BadRequest)
    } else if code_taken(guild.invites, code) {
        Err(Status::Conflict)
    } else {
        Ok(GuildView { invites: guild.invites.push(issued(code, actor, ttl, max_uses, now)), ..guild })
    }
}

/// Issuing an invite keeps a well-formed guild well-formed.
pub proof fn lemma_add_invite_keeps_invariants(
    guild: GuildView,
    actor: Seq<char>,
    code: Seq<char>,
    ttl: i64,
    max_uses: usize,
    now: i64,
)
    requires
        guild.well_formed(),
        add_invite_outcome(guild, actor, code, ttl, max_uses, now) is Ok,
    ensures
        add_invite_outcome(guild, actor, code, ttl, max_uses, now)->Ok_0.well_formed(),
{
    let after = add_invite_outcome(guild, actor, code, ttl, max_uses, now)->Ok_0;
    let n = guild.invites.len() as int;
    assert forall|i: int| 0 <= i < after.invites.len() implies (#[trigger] after.invites[i]).uses
        <= after.invites[i].max_uses by {
        if i < n {
            assert(after.invites[i] == guild.invites[i]);
        }
    }
    assert forall|i: int, j: int| 0 <= i < j < after.invites.len() implies (
    #[trigger] after.invites[i]).code != (#[trigger] after.invites[j]).code by {
        assert(after.invites[i] == guild.invites[i]);
        if j < n {
            assert(after.invites[j] == guild.invites[j]);
        }
    }
}

/// Whether an invite of the guild answers to the code.
fn is_code_taken(guild: &Guild, code: &String) -> (taken: bool)
    ensures
        taken == code_taken(guild@.invites, code@),
{
    let mut i: usize = 0;
    while i < guild.invites.len()
        invariant
            i <= guild.invites.len(),
            forall|j: int| 0 <= j < i ==> guild.invites[j].code@ != code@,
        decreases guild.invites.len() - i,
    {
        if guild.invites[i].code == *code {
            assert(guild@.invites[i as int].code == code@);
            return true;
        }
        i += 1;
    }
    assert forall|j: int| 0 <= j < guild@.invites.len() implies (#[trigger] guild@.invites[j]).code
        != code@ by {
        assert(guild.invites[j].code@ != code@);
    }
    false
}

/// Issues an invite under the given code. On success, returns the invite.
pub fn add_invite(
    guild: &mut Guild,
    actor_id: &String,
    code: String,
    body: &CreateInviteBody,
    now: i64,
) -> (outcome: Result<Invite, AppError>)
    ensures
        match add_invite_outcome(
            old(guild)@,
            actor_id@,
            code@,
            body.expiration,
            body.max_uses,
            now,
        ) {
            Ok(after) => outcome matches Ok(invite) && invite@ == issued(
                code@,
                actor_id@,
                body.expiration,
                body.max_uses,
                now,
            ) && final(guild)@ == after,
            Err(status) => outcome matches Err(e) && e == AppError(status) && final(guild)@ == old(guild)@,
        },
        old(guild)@.well_formed() ==> final(guild)@.well_formed(),
{
    if !check_guild_permission(
        guild,
        actor_id,
        GuildPermissions::from_bits_truncate(GuildPermissions::CREATE_INVITE),
    ) {
        return Err(AppError(Status::Forbidden));
    }
    let expiration = match now.checked_add(body.expiration) {
        Some(expiration) => expiration,
        None => {
            return Err(AppError(Status::BadRequest));
        },
    };
    if is_code_taken(guild, &code) {
        return Err(AppError(Status::Conflict));
    }
    let ghost before = guild@;
    proof {
        if before.well_formed() {
            lemma_add_invite_keeps_invariants(
                before,
                actor_id@,
                code@,
                body.expiration,
                body.max_uses,
                now,
            );
        }
    }
    let invite = Invite {
        code,
        author: actor_id.clone(),
        expiration,
        max_uses: body.max_uses,
        uses: 0,
    };
    let issued = invite.clone();
    guild.invites.push(invite);
    assert(guild@.invites =~= before.invites.push(issued@));
    Ok(issued)
}

/// Issues an invite under a fresh random code. The outcome is that of
/// [`add_invite`] under the code that was drawn: an actor who may not
/// create invites is refused, an expiration beyond the clock is a bad
/// request, and a conflict arises only if the drawn code is in use already.
pub fn create_guild_invite(guild: &mut Guild, actor_id: &String, body: &CreateInviteBody, now: i64) -> (outcome:
    Result<Invite, AppError>)
    ensures
        match outcome {
            Ok(invite) => is_uuid_text(invite@.code) && invite@ == issued(
                invite@.code,
                actor_id@,
                body.expiration,
                body.max_uses,
                now,
            ) && add_invite_outcome(
                old(guild)@,
                actor_id@,
                invite@.code,
                body.expiration,
                body.max_uses,
                now,
            ) == Ok::<GuildView, Status>(final(guild)@),
            Err(e) => final(guild)@ == old(guild)@ && exists|code: Seq<char>|
                is_uuid_text(code) && #[trigger] add_invite_outcome(
                    old(guild)@,
                    actor_id@,
                    code,
                    body.expiration,
                    body.max_uses,
                    now,
                ) == Err::<GuildView, Status>(e.0),
        },
        old(guild)@.well_formed() ==> final(guild)@.well_formed(),
{
    let code = fresh_id();
    let ghost drawn = code@;
    let outcome = add_invite(guild, actor_id, code, body, now);
    proof {
        if outcome is Err {
            assert(add_invite_outcome(
                old(guild)@,
                actor_id@,
                drawn,
                body.expiration,
                body.max_uses,
                now,
            ) == Err::<GuildView, Status>(outcome->Err_0.0));
        }
    }
    outcome
}

/// Selects the invites that answer to another code.
pub open spec fn other_code(code: Seq<char>) -> spec_fn(InviteView) -> bool {
    |invite: InviteView| invite.code != code
}

/// The guild without any invite under the code.
pub open spec fn withdrawn(guild: GuildView, code: Seq<char>) -> GuildView {
    GuildView { invites: guild.invites.filter(other_code(code)), ..guild }
}

/// What withdrawing an invite comes to: refused unless the actor may manage
/// the guild, and otherwise the guild without any invite under the code.
pub open spec fn delete_invite_outcome(guild: GuildView, actor: Seq<char>, code: Seq<char>) -> Result<
    GuildView,
    Status,
> {
    if !guild_permission_granted(guild, actor, GuildPermissions::MANAGE_GUILD) {
        Err(Status::Forbidden)
    } else {
        Ok(withdrawn(guild, code))
    }
}

/// Withdrawing an invite leaves no invite under its code and keeps a
/// well-formed guild well-formed.
pub proof fn lemma_delete_invite(guild: GuildView, code: Seq<char>)
    ensures
        !code_taken(withdrawn(guild, code).invites, code),
        guild.well_formed() ==> withdrawn(guild, code).well_formed(),
{
    let kept = guild.invites.filter(other_code(code));
    let positions = kept_positions(guild.invites, other_code(code));
    lemma_kept_positions(guild.invites, other_code(code));
    if guild.well_formed() {
        assert forall|i: int| 0 <= i < kept.len() implies (#[trigger] kept[i]).uses
            <= kept[i].max_uses by {
            assert(kept[i] == guild.invites[positions[i]]);
        }
        assert forall|i: int, j: int| 0 <= i < j < kept.len() implies (#[trigger] kept[i]).code != (
        #[trigger] kept[j]).code by {
            assert(positions[i] < positions[j]);
            assert(guild.invites[positions[i]].code != guild.invites[positions[j]].code);
        }
    }
}

/// Withdraws every invite under the code.
pub fn delete_guild_invite(guild: &mut Guild, actor_id: &String, invite_code: &String) -> (outcome:
    Result<(), AppError>)
    ensures
        match delete_invite_outcome(old(guild)@, actor_id@, invite_code@) {
            Ok(after) => outcome is Ok && final(guild)@ == after,
            Err(status) => outcome matches Err(e) && e == AppError(status) && final(guild)@ == old(guild)@,
        },
        old(guild)@.well_formed() ==> final(guild)@.well_formed(),
{
    if !check_guild_permission(
        guild,
        actor_id,
        GuildPermissions::from_bits_truncate(GuildPermissions::MANAGE_GUILD),
    ) {
        return Err(AppError(Status::Forbidden));
    }
    let ghost before = guild@;
    let mut invites: Vec<Invite> = Vec::new();
    let mut i: usize = 0;
    proof {
        reveal(Seq::filter);
        assert(invites.deep_view() =~= before.invites.take(0).filter(other_code(invite_code@)));
    }
    while i < guild.invites.len()
        invariant
            i <= guild.invites.len(),
            guild@ == before,
            invites.deep_view() == before.invites.take(i as int).filter(other_code(invite_code@)),
        decreases guild.invites.len() - i,
    {
        proof {
            lemma_filter_step(before.invites, other_code(invite_code@), i as int);
        }
        let invite = &guild.invites[i];
        assert(before.invites[i as int] == invite@);
        if invite.code != *invite_code {
            let ghost so_far = invites.deep_view();
            invites.push(invite.clone());
            assert(invites.deep_view() =~= so_far.push(invite@));
        }
        i += 1;
    }
    assert(before.invites.take(i as int) == before.invites);
    guild.invites = invites;
    proof {
        lemma_delete_invite(before, invite_code@);
    }
    Ok(())
}

/// The guild's invites, for an actor who may manage the guild.
pub fn get_guild_invites(guild: &Guild, actor_id: &String) -> (outcome: Result<Vec<Invite>, AppError>)
    ensures
        match outcome {
            Ok(invites) => guild_permission_granted(
                guild@,
                actor_id@,
                GuildPermissions::MANAGE_GUILD,
            ) && invites.deep_view() == guild@.invites,
            Err(e) => !guild_permission_granted(guild@, actor_id@, GuildPermissions::MANAGE_GUILD)
                && e == AppError(Status::Forbidden),
        },
{
    if !check_guild_permission(
        guild,
        actor_id,
        GuildPermissions::from_bits_truncate(GuildPermissions::MANAGE_GUILD),
    ) {
        return Err(AppError(Status::Forbidden));
    }
    let mut invites: Vec<Invite> = Vec::new();
    let mut i: usize = 0;
    while i < guild.invites.len()
        invariant
            i <= guild.invites.len(),
            invites.len() == i,
            forall|j: int| 0 <= j < i ==> invites[j]@ == guild.invites[j]@,
        decreases guild.invites.len() - i,
    {
        invites.push(guild.invites[i].clone());
        i += 1;
    }
    assert(invites.deep_view() =~= guild@.invites);
    Ok(invites)
}

/// The endpoints for a guild's invites and for joining by one.
pub open spec fn invite_routes() -> Seq<RouteView> {
    seq![
        RouteView { method: Method::Get, uri: "/guilds/<guild_id>/invites"@, name: "get_guild_invites"@ },
        RouteView { method: Method::Post, uri: "/guilds/<guild_id>/invites"@, name: "create_guild_invite"@ },
        RouteView { method: Method::Delete, uri: "/guilds/<guild_id>/invites/<invite_code>"@, name: "delete_guild_invite"@ },
        RouteView { method: Method::Get, uri: "/invites/<invite_code>"@, name: "get_invite"@ },
        RouteView { method: Method::Put, uri: "/invites/<invite_code>"@, name: "join_invite"@ },
    ]
}

/// The invite endpoints.
pub fn get_routes() -> (routes: Vec<Route>)
    ensures
        routes.deep_view() == invite_routes(),
{
    let mut routes: Vec<Route> = Vec::new();
    routes.push(Route { method: Method::Get, uri: "/guilds/<guild_id>/invites", name: "get_guild_invites" });
    routes.push(Route { method: Method::Post, uri: "/guilds/<guild_id>/invites", name: "create_guild_invite" });
    routes.push(Route { method: Method::Delete, uri: "/guilds/<guild_id>/invites/<invite_code>", name: "delete_guild_invite" });
    routes.push(Route { method: Method::Get, uri: "/invites/<invite_code>", name: "get_invite" });
    routes.push(Route { method: Method::Put, uri: "/invites/<invite_code>", name: "join_invite" });
    assert(routes.deep_view() =~= invite_routes());
    routes
}

} // verus!
