//! The guild aggregate: its reserved roles, its lookups and the invariants
//! that every operation keeps.

use vstd::prelude::*;
use crate::sequences::contains_text;
use crate::routes::structs::{
    clone_roles, clone_text, ChannelView, Guild, GuildView, InviteView, MemberView, ReturnedGuild,
    ReturnedGuildView, RoleView,
};

verus! {

/// Id of the role that marks a guild's owner.
pub const OWNER_ROLE_ID: &'static str = "00000000-0000-0000-0000-000000000000";

/// Id of the role that every member gets on joining.
pub const MEMBER_ROLE_ID: &'static str = "11111111-1111-1111-1111-111111111111";

/// The owner role's id as text.
pub open spec fn owner_role() -> Seq<char> {
    OWNER_ROLE_ID@
}

/// The member role's id as text.
pub open spec fn member_role() -> Seq<char> {
    MEMBER_ROLE_ID@
}

/// The two reserved role ids differ.
pub proof fn lemma_reserved_roles_differ()
    ensures
        owner_role() != member_role(),
{
    reveal_strlit("00000000-0000-0000-0000-000000000000");
    reveal_strlit("11111111-1111-1111-1111-111111111111");
    assert(owner_role()[0] == '0');
    assert(member_role()[0] == '1');
}

/// The owner role's id.
pub fn owner_role_id() -> (id: String)
    ensures
        id@ == owner_role(),
{
    String::from_str(OWNER_ROLE_ID)
}

/// The member role's id.
pub fn member_role_id() -> (id: String)
    ensures
        id@ == member_role(),
{
    String::from_str(MEMBER_ROLE_ID)
}

/// Position of the first member record with this id, if there is one.
pub open spec fn member_position(members: Seq<MemberView>, id: Seq<char>) -> Option<int>
    decreases members.len(),
{
    if members.len() == 0 {
        None
    } else if members.last().id == id && member_position(members.drop_last(), id) is None {
        Some(members.len() - 1)
    } else {
        member_position(members.drop_last(), id)
    }
}

/// `member_position` finds a record exactly when one carries the id, and
/// then the earliest such record.
pub proof fn lemma_member_position(members: Seq<MemberView>, id: Seq<char>)
    ensures
        member_position(members, id) is None <==> forall|i: int|
            0 <= i < members.len() ==> (#[trigger] members[i]).id != id,
        member_position(members, id) matches Some(p) ==> {
            &&& 0 <= p < members.len()
            &&& members[p].id == id
            &&& forall|i: int| 0 <= i < p ==> (#[trigger] members[i]).id != id
        },
    decreases members.len(),
{
    if members.len() > 0 {
        let front = members.drop_last();
        lemma_member_position(front, id);
        assert(forall|i: int| 0 <= i < front.len() ==> front[i] == members[i]);
        if member_position(front, id) is None {
            assert forall|i: int| 0 <= i < members.len() - 1 implies (#[trigger] members[i]).id
                != id by {
                assert(front[i].id != id);
            }
        } else {
            let p = member_position(front, id)->0;
            assert(members[p].id == id);
        }
    }
}

/// Where a member record is found depends on the ids of the records alone.
pub proof fn lemma_position_by_ids(a: Seq<MemberView>, b: Seq<MemberView>, id: Seq<char>)
    requires
        a.len() == b.len(),
        forall|i: int| 0 <= i < a.len() ==> (#[trigger] a[i]).id == b[i].id,
    ensures
        member_position(a, id) == member_position(b, id),
{
    lemma_member_position(a, id);
    lemma_member_position(b, id);
    if member_position(a, id) is Some {
        let p = member_position(a, id)->0;
        assert(a[p].id == b[p].id);
        let q = member_position(b, id)->0;
        assert(a[q].id == b[q].id);
    } else if member_position(b, id) is Some {
        let q = member_position(b, id)->0;
        assert(a[q].id == b[q].id);
    }
}

/// Position of the first channel with this id, if there is one.
pub open spec fn channel_position(channels: Seq<ChannelView>, id: Seq<char>) -> Option<int>
    decreases channels.len(),
{
    if channels.len() == 0 {
        None
    } else if channels.last().id == id && channel_position(channels.drop_last(), id) is None {
        Some(channels.len() - 1)
    } else {
        channel_position(channels.drop_last(), id)
    }
}

/// `channel_position` finds a channel exactly when one carries the id, and
/// then the earliest such channel.
pub proof fn lemma_channel_position(channels: Seq<ChannelView>, id: Seq<char>)
    ensures
        channel_position(channels, id) is None <==> forall|i: int|
            0 <= i < channels.len() ==> (#[trigger] channels[i]).id != id,
        channel_position(channels, id) matches Some(p) ==> {
            &&& 0 <= p < channels.len()
            &&& channels[p].id == id
            &&& forall|i: int| 0 <= i < p ==> (#[trigger] channels[i]).id != id
        },
    decreases channels.len(),
{
    if channels.len() > 0 {
        let front = channels.drop_last();
        lemma_channel_position(front, id);
        assert(forall|i: int| 0 <= i < front.len() ==> front[i] == channels[i]);
        if channel_position(front, id) is None {
            assert forall|i: int| 0 <= i < channels.len() - 1 implies (#[trigger] channels[i]).id
                != id by {
                assert(front[i].id != id);
            }
        } else {
            let p = channel_position(front, id)->0;
            assert(channels[p].id == id);
        }
    }
}

/// Whether the member record carries the owner role.
pub open spec fn is_owner(member: MemberView) -> bool {
    member.roles.contains(owner_role())
}

/// Whether exactly one of the member records carries the owner role.
pub open spec fn one_owner(members: Seq<MemberView>) -> bool {
    exists|i: int|
        0 <= i < members.len() && is_owner(#[trigger] members[i]) && forall|j: int|
            0 <= j < members.len() && is_owner(#[trigger] members[j]) ==> j == i
}

/// Whether exactly one of the roles has the owner role's id.
pub open spec fn one_owner_role(roles: Seq<RoleView>) -> bool {
    exists|i: int|
        0 <= i < roles.len() && (#[trigger] roles[i]).id == owner_role() && forall|j: int|
            0 <= j < roles.len() && (#[trigger] roles[j]).id == owner_role() ==> j == i
}

/// Whether one of the roles has this id.
pub open spec fn role_exists(roles: Seq<RoleView>, id: Seq<char>) -> bool {
    exists|k: int| 0 <= k < roles.len() && (#[trigger] roles[k]).id == id
}

/// Whether every role id that a member holds names a role of the guild.
pub open spec fn roles_known(members: Seq<MemberView>, roles: Seq<RoleView>) -> bool {
    forall|m: int, r: int|
        0 <= m < members.len() && 0 <= r < members[m].roles.len() ==> role_exists(
            roles,
            #[trigger] members[m].roles[r],
        )
}

/// Whether no invite has been used more often than it allows.
pub open spec fn invites_bounded(invites: Seq<InviteView>) -> bool {
    forall|i: int| 0 <= i < invites.len() ==> (#[trigger] invites[i]).uses <= invites[i].max_uses
}

/// Whether no two invites share a code.
pub open spec fn invites_distinct(invites: Seq<InviteView>) -> bool {
    forall|i: int, j: int|
        0 <= i < j < invites.len() ==> (#[trigger] invites[i]).code != (#[trigger] invites[j]).code
}

/// Whether no two member records share a user id.
pub open spec fn members_distinct(members: Seq<MemberView>) -> bool {
    forall|i: int, j: int|
        0 <= i < j < members.len() ==> (#[trigger] members[i]).id != (#[trigger] members[j]).id
}

/// Whether no member is banned.
pub open spec fn bans_exclude_members(bans: Seq<Seq<char>>, members: Seq<MemberView>) -> bool {
    forall|m: int| 0 <= m < members.len() ==> !bans.contains((#[trigger] members[m]).id)
}

impl GuildView {
    /// Whether the user has a membership record.
    pub open spec fn is_member(self, id: Seq<char>) -> bool {
        member_position(self.members, id) is Some
    }

    /// The role ids held by the member with this id, if there is such a member.
    pub open spec fn held_roles(self, id: Seq<char>) -> Option<Seq<Seq<char>>> {
        match member_position(self.members, id) {
            Some(p) => Some(self.members[p].roles),
            None => None,
        }
    }

    /// Whether the user is a member and holds the owner role.
    pub open spec fn holds_owner(self, id: Seq<char>) -> bool {
        match self.held_roles(id) {
            Some(held) => held.contains(owner_role()),
            None => false,
        }
    }

    /// The user ids of the members, in the order of their records.
    pub open spec fn member_ids(self) -> Seq<Seq<char>> {
        Seq::new(self.members.len(), |i: int| self.members[i].id)
    }

    /// What the guild shows of itself.
    pub open spec fn preview(self) -> ReturnedGuildView {
        ReturnedGuildView {
            id: self.id,
            name: self.name,
            description: self.description,
            icon: self.icon,
            public: self.public,
            roles: self.roles,
            members: self.members.len() as usize,
            creation: self.creation,
        }
    }

    /// The invariants of the aggregate: one owner role, the member role that
    /// joining grants, one owner, members that hold only roles of the guild
    /// and are not banned, invites within their caps, and no user or invite
    /// code recorded twice.
    pub open spec fn well_formed(self) -> bool {
        &&& one_owner_role(self.roles)
        &&& role_exists(self.roles, member_role())
        &&& one_owner(self.members)
        &&& roles_known(self.members, self.roles)
        &&& invites_bounded(self.invites)
        &&& bans_exclude_members(self.bans, self.members)
        &&& members_distinct(self.members)
        &&& invites_distinct(self.invites)
    }
}

impl Guild {
    /// Index of the first channel with this id, if the guild has one.
    pub fn channel_index(&self, id: &String) -> (found: Option<usize>)
        ensures
            found is Some <==> channel_position(self@.channels, id@) is Some,
            found matches Some(i) ==> {
                &&& i < self.channels.len()
                &&& self.channels[i as int].id@ == id@
                &&& channel_position(self@.channels, id@) == Some(i as int)
            },
    {
        let mut i: usize = 0;
        while i < self.channels.len()
            invariant
                i <= self.channels.len(),
                forall|j: int| 0 <= j < i ==> self.channels[j].id@ != id@,
            decreases self.channels.len() - i,
        {
            if self.channels[i].id == *id {
                proof {
                    lemma_channel_position(self@.channels, id@);
                    assert(self@.channels[i as int].id == id@);
                    assert forall|j: int| 0 <= j < i implies (#[trigger] self@.channels[j]).id
                        != id@ by {
                        assert(self.channels[j].id@ != id@);
                    }
                }
                return Some(i);
            }
            i += 1;
        }
        proof {
            lemma_channel_position(self@.channels, id@);
            assert forall|j: int| 0 <= j < self@.channels.len() implies (
            #[trigger] self@.channels[j]).id != id@ by {
                assert(self.channels[j].id@ != id@);
            }
        }
        None
    }

    /// Index of the first membership record of this user, if the user is a member.
    pub fn member_index(&self, id: &String) -> (found: Option<usize>)
        ensures
            found is Some <==> self@.is_member(id@),
            found matches Some(i) ==> {
                &&& i < self.members.len()
                &&& self.members[i as int].id@ == id@
                &&& member_position(self@.members, id@) == Some(i as int)
                &&& self@.held_roles(id@) == Some(self.members[i as int].roles.deep_view())
            },
    {
        let mut i: usize = 0;
        while i < self.members.len()
            invariant
                i <= self.members.len(),
                forall|j: int| 0 <= j < i ==> self.members[j].id@ != id@,
            decreases self.members.len() - i,
        {
            if self.members[i].id == *id {
                proof {
                    lemma_member_position(self@.members, id@);
                    assert(self@.members[i as int] == self.members[i as int]@);
                    assert forall|j: int| 0 <= j < i implies (#[trigger] self@.members[j]).id
                        != id@ by {
                        assert(self.members[j].id@ != id@);
                    }
                }
                return Some(i);
            }
            i += 1;
        }
        proof {
            lemma_member_position(self@.members, id@);
            assert forall|j: int| 0 <= j < self@.members.len() implies (
            #[trigger] self@.members[j]).id != id@ by {
                assert(self.members[j].id@ != id@);
            }
        }
        None
    }

    /// Whether the user has a membership record.
    pub fn is_member(&self, id: &String) -> (found: bool)
        ensures
            found == self@.is_member(id@),
    {
        self.member_index(id).is_some()
    }

    /// Whether the user is a member and holds the owner role.
    pub fn holds_owner(&self, id: &String) -> (holds: bool)
        ensures
            holds == self@.holds_owner(id@),
    {
        match self.member_index(id) {
            Some(m) => {
                let owner = owner_role_id();
                contains_text(&self.members[m].roles, &owner)
            },
            None => false,
        }
    }

    /// The user ids of the members, in the order of their records.
    pub fn member_ids(&self) -> (ids: Vec<String>)
        ensures
            ids.deep_view() == self@.member_ids(),
    {
        let mut ids: Vec<String> = Vec::new();
        let mut i: usize = 0;
        while i < self.members.len()
            invariant
                i <= self.members.len(),
                ids.len() == i,
                forall|j: int| 0 <= j < i ==> ids[j]@ == self.members[j].id@,
            decreases self.members.len() - i,
        {
            ids.push(self.members[i].id.clone());
            i += 1;
        }
        assert(ids.deep_view() =~= self@.member_ids());
        ids
    }

    /// What the guild shows of itself.
    pub fn preview(&self) -> (shown: ReturnedGuild)
        ensures
            shown@ == self@.preview(),
    {
        ReturnedGuild {
            id: self.id.clone(),
            name: self.name.clone(),
            description: clone_text(&self.description),
            icon: clone_text(&self.icon),
            public: self.public,
            roles: clone_roles(&self.roles),
            members: self.members.len(),
            creation: self.creation,
        }
    }
}

impl Guild {
    /// Whether one of the guild's roles has this id.
    pub fn has_role(&self, id: &String) -> (found: bool)
        ensures
            found == role_exists(self@.roles, id@),
    {
        let mut i: usize = 0;
        while i < self.roles.len()
            invariant
                i <= self.roles.len(),
                forall|j: int| 0 <= j < i ==> self.roles[j].id@ != id@,
            decreases self.roles.len() - i,
        {
            if self.roles[i].id == *id {
                assert(self@.roles[i as int].id == id@);
                return true;
            }
            i += 1;
        }
        assert forall|j: int| 0 <= j < self@.roles.len() implies (#[trigger] self@.roles[j]).id
            != id@ by {
            assert(self.roles[j].id@ != id@);
        }
        false
    }

    /// Whether exactly one role has the owner role's id.
    fn has_one_owner_role(&self) -> (holds: bool)
        ensures
            holds == one_owner_role(self@.roles),
    {
        let owner = owner_role_id();
        let ghost roles = self@.roles;
        let mut found: Option<usize> = None;
        let mut i: usize = 0;
        while i < self.roles.len()
            invariant
                i <= self.roles.len(),
                roles == self@.roles,
                owner@ == owner_role(),
                found is None ==> forall|j: int|
                    0 <= j < i ==> (#[trigger] roles[j]).id != owner_role(),
                found matches Some(k) ==> k < i && roles[k as int].id == owner_role() && forall|
                    j: int,
                | 0 <= j < i && (#[trigger] roles[j]).id == owner_role() ==> j == k,
            decreases self.roles.len() - i,
        {
            assert(roles[i as int].id == self.roles[i as int].id@);
            if self.roles[i].id == owner {
                match found {
                    Some(k) => {
                        assert(roles[k as int].id == owner_role() && roles[i as int].id
                            == owner_role());
                        return false;
                    },
                    None => {
                        found = Some(i);
                    },
                }
            }
            i += 1;
        }
        found.is_some()
    }

    /// Whether exactly one member holds the owner role.
    fn has_one_owner(&self) -> (holds: bool)
        ensures
            holds == one_owner(self@.members),
    {
        let owner = owner_role_id();
        let ghost members = self@.members;
        let mut found: Option<usize> = None;
        let mut i: usize = 0;
        while i < self.members.len()
            invariant
                i <= self.members.len(),
                members == self@.members,
                owner@ == owner_role(),
                found is None ==> forall|j: int| 0 <= j < i ==> !is_owner(#[trigger] members[j]),
                found matches Some(k) ==> k < i && is_owner(members[k as int]) && forall|j: int|
                    0 <= j < i && is_owner(#[trigger] members[j]) ==> j == k,
            decreases self.members.len() - i,
        {
            assert(members[i as int].roles == self.members[i as int].roles.deep_view());
            if contains_text(&self.members[i].roles, &owner) {
                match found {
                    Some(k) => {
                        assert(is_owner(members[k as int]) && is_owner(members[i as int]));
                        return false;
                    },
                    None => {
                        found = Some(i);
                    },
                }
            }
            i += 1;
        }
        found.is_some()
    }

    /// Whether every member holds only roles of the guild and is not banned.
    fn members_in_order(&self) -> (holds: bool)
        ensures
            holds == (roles_known(self@.members, self@.roles) && bans_exclude_members(
                self@.bans,
                self@.members,
            )),
    {
        let ghost members = self@.members;
        let mut m: usize = 0;
        while m < self.members.len()
            invariant
                m <= self.members.len(),
                members == self@.members,
                forall|a: int, r: int|
                    0 <= a < m && 0 <= r < members[a].roles.len() ==> role_exists(
                        self@.roles,
                        #[trigger] members[a].roles[r],
                    ),
                forall|a: int| 0 <= a < m ==> !self@.bans.contains((#[trigger] members[a]).id),
            decreases self.members.len() - m,
        {
            let member = &self.members[m];
            assert(members[m as int] == member@);
            if contains_text(&self.bans, &member.id) {
                return false;
            }
            let mut r: usize = 0;
            while r < member.roles.len()
                invariant
                    r <= member.roles.len(),
                    members == self@.members,
                    m < self.members.len(),
                    members[m as int] == member@,
                    forall|b: int|
                        0 <= b < r ==> role_exists(self@.roles, #[trigger] members[m as int].roles[b]),
                decreases member.roles.len() - r,
            {
                assert(members[m as int].roles[r as int] == member.roles[r as int]@);
                if !self.has_role(&member.roles[r]) {
                    return false;
                }
                r += 1;
            }
            m += 1;
        }
        true
    }

    /// Whether no invite is over its cap and no two invites share a code.
    fn invites_in_order(&self) -> (holds: bool)
        ensures
            holds == (invites_bounded(self@.invites) && invites_distinct(self@.invites)),
    {
        let ghost invites = self@.invites;
        let mut j: usize = 0;
        while j < self.invites.len()
            invariant
                j <= self.invites.len(),
                invites == self@.invites,
                forall|a: int| 0 <= a < j ==> (#[trigger] invites[a]).uses <= invites[a].max_uses,
                forall|a: int, b: int|
                    0 <= a < b < j ==> (#[trigger] invites[a]).code != (#[trigger] invites[b]).code,
            decreases self.invites.len() - j,
        {
            assert(invites[j as int] == self.invites[j as int]@);
            if self.invites[j].uses > self.invites[j].max_uses {
                return false;
            }
            let mut i: usize = 0;
            while i < j
                invariant
                    i <= j,
                    j < self.invites.len(),
                    invites == self@.invites,
                    forall|a: int| 0 <= a < i ==> (#[trigger] invites[a]).code != invites[j as int].code,
                decreases j - i,
            {
                assert(invites[i as int] == self.invites[i as int]@);
                if self.invites[i].code == self.invites[j].code {
                    assert(invites[i as int].code == invites[j as int].code);
                    return false;
                }
                i += 1;
            }
            j += 1;
        }
        true
    }

    /// Whether no two member records share a user id.
    fn members_are_distinct(&self) -> (holds: bool)
        ensures
            holds == members_distinct(self@.members),
    {
        let ghost members = self@.members;
        let mut j: usize = 0;
        while j < self.members.len()
            invariant
                j <= self.members.len(),
                members == self@.members,
                forall|a: int, b: int|
                    0 <= a < b < j ==> (#[trigger] members[a]).id != (#[trigger] members[b]).id,
            decreases self.members.len() - j,
        {
            assert(members[j as int] == self.members[j as int]@);
            let mut i: usize = 0;
            while i < j
                invariant
                    i <= j,
                    j < self.members.len(),
                    members == self@.members,
                    forall|a: int| 0 <= a < i ==> (#[trigger] members[a]).id != members[j as int].id,
                decreases j - i,
            {
                assert(members[i as int] == self.members[i as int]@);
                if self.members[i].id == self.members[j].id {
                    assert(members[i as int].id == members[j as int].id);
                    return false;
                }
                i += 1;
            }
            j += 1;
        }
        true
    }

    /// Whether the guild's invariants hold: to be asked of a guild that
    /// comes from elsewhere before it is worked on.
    pub fn is_well_formed(&self) -> (holds: bool)
        ensures
            holds == self@.well_formed(),
    {
        self.has_one_owner_role() && self.has_role(&member_role_id()) && self.has_one_owner()
            && self.members_in_order() && self.invites_in_order() && self.members_are_distinct()
    }
}

} // verus!
