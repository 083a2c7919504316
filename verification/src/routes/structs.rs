//! The guild aggregate and the request and response records.
//!
//! Every record that the operations reason about has a mathematical view: a
//! ghost record of the same shape whose strings are sequences of characters
//! and whose lists are sequences. Contracts are stated over these views.

use vstd::prelude::*;

verus! {

/// View of a [`Role`].
pub struct RoleView {
    pub id: Seq<char>,
    pub name: Seq<char>,
    pub color: Option<Seq<char>>,
    pub hoist: bool,
    pub permissions: u64,
}

/// A named bundle of guild-scoped permissions.
#[derive(Debug)]
pub struct Role {
    pub id: String,
    pub name: String,
    pub color: Option<String>,
    pub hoist: bool,
    /// Guild-scoped permission bitmask; all bits set marks an administrator.
    pub permissions: u64,
}

impl DeepView for Role {
    type V = RoleView;

    open spec fn deep_view(&self) -> RoleView {
        RoleView {
            id: self.id@,
            name: self.name@,
            color: self.color.deep_view(),
            hoist: self.hoist,
            permissions: self.permissions,
        }
    }
}

impl View for Role {
    type V = RoleView;

    open spec fn view(&self) -> RoleView {
        self.deep_view()
    }
}

impl Clone for Role {
    fn clone(&self) -> (res: Self)
        ensures
            res@ == self@,
    {
        Role {
            id: self.id.clone(),
            name: self.name.clone(),
            color: clone_text(&self.color),
            hoist: self.hoist,
            permissions: self.permissions,
        }
    }
}

/// View of a [`Member`].
pub struct MemberView {
    pub id: Seq<char>,
    pub nickname: Option<Seq<char>>,
    pub roles: Seq<Seq<char>>,
}

/// A user's membership record in one guild, with the ids of the roles held.
#[derive(Debug)]
pub struct Member {
    pub id: String,
    pub nickname: Option<String>,
    pub roles: Vec<String>,
}

impl DeepView for Member {
    type V = MemberView;

    open spec fn deep_view(&self) -> MemberView {
        MemberView {
            id: self.id@,
            nickname: self.nickname.deep_view(),
            roles: self.roles.deep_view(),
        }
    }
}

impl View for Member {
    type V = MemberView;

    open spec fn view(&self) -> MemberView {
        self.deep_view()
    }
}

impl Clone for Member {
    fn clone(&self) -> (res: Self)
        ensures
            res@ == self@,
    {
        Member {
            id: self.id.clone(),
            nickname: clone_text(&self.nickname),
            roles: clone_texts(&self.roles),
        }
    }
}

/// View of an [`Invite`].
pub struct InviteView {
    pub code: Seq<char>,
    pub author: Seq<char>,
    pub expiration: i64,
    pub max_uses: usize,
    pub uses: usize,
}

/// A capped, time-limited token that grants membership.
#[derive(Debug)]
pub struct Invite {
    pub code: String,
    pub author: String,
    /// Epoch seconds after which the invite is no longer valid.
    pub expiration: i64,
    pub max_uses: usize,
    pub uses: usize,
}

impl DeepView for Invite {
    type V = InviteView;

    open spec fn deep_view(&self) -> InviteView {
        InviteView {
            code: self.code@,
            author: self.author@,
            expiration: self.expiration,
            max_uses: self.max_uses,
            uses: self.uses,
        }
    }
}

impl View for Invite {
    type V = InviteView;

    open spec fn view(&self) -> InviteView {
        self.deep_view()
    }
}

impl Clone for Invite {
    fn clone(&self) -> (res: Self)
        ensures
            res@ == self@,
    {
        Invite {
            code: self.code.clone(),
            author: self.author.clone(),
            expiration: self.expiration,
            max_uses: self.max_uses,
            uses: self.uses,
        }
    }
}

/// View of a [`ChannelRole`].
pub struct ChannelRoleView {
    pub id: Seq<char>,
    pub permissions: u64,
}

/// What one role may do in one channel.
#[derive(Debug)]
pub struct ChannelRole {
    pub id: String,
    /// Channel-scoped permission bitmask; all bits set marks an administrator.
    pub permissions: u64,
}

impl DeepView for ChannelRole {
    type V = ChannelRoleView;

    open spec fn deep_view(&self) -> ChannelRoleView {
        ChannelRoleView { id: self.id@, permissions: self.permissions }
    }
}

impl View for ChannelRole {
    type V = ChannelRoleView;

    open spec fn view(&self) -> ChannelRoleView {
        self.deep_view()
    }
}

/// View of a [`Message`].
pub struct MessageView {
    pub id: Seq<char>,
    pub author: Seq<char>,
    pub content: Seq<char>,
    pub creation: i64,
    pub edited: i64,
    pub kind: Seq<char>,
    pub atachment: Option<Seq<char>>,
    pub atachment_id: Option<Seq<char>>,
}

/// A message stored in a channel.
#[derive(Debug)]
pub struct Message {
    pub id: String,
    pub author: String,
    pub content: String,
    pub creation: i64,
    pub edited: i64,
    pub kind: String,
    pub atachment: Option<String>,
    pub atachment_id: Option<String>,
}

impl DeepView for Message {
    type V = MessageView;

    open spec fn deep_view(&self) -> MessageView {
        MessageView {
            id: self.id@,
            author: self.author@,
            content: self.content@,
            creation: self.creation,
            edited: self.edited,
            kind: self.kind@,
            atachment: self.atachment.deep_view(),
            atachment_id: self.atachment_id.deep_view(),
        }
    }
}

impl View for Message {
    type V = MessageView;

    open spec fn view(&self) -> MessageView {
        self.deep_view()
    }
}

/// View of a [`Channel`].
pub struct ChannelView {
    pub id: Seq<char>,
    pub name: Seq<char>,
    pub topic: Option<Seq<char>>,
    pub kind: Seq<char>,
    pub creation: i64,
    pub roles: Seq<ChannelRoleView>,
    pub messages: Seq<MessageView>,
    pub pins: Seq<Seq<char>>,
}

/// A sub-unit of a guild with its own permission overrides.
#[derive(Debug)]
pub struct Channel {
    pub id: String,
    pub name: String,
    pub topic: Option<String>,
    pub kind: String,
    pub creation: i64,
    pub roles: Vec<ChannelRole>,
    pub messages: Vec<Message>,
    pub pins: Vec<String>,
}

impl DeepView for Channel {
    type V = ChannelView;

    open spec fn deep_view(&self) -> ChannelView {
        ChannelView {
            id: self.id@,
            name: self.name@,
            topic: self.topic.deep_view(),
            kind: self.kind@,
            creation: self.creation,
            roles: self.roles.deep_view(),
            messages: self.messages.deep_view(),
            pins: self.pins.deep_view(),
        }
    }
}

impl View for Channel {
    type V = ChannelView;

    open spec fn view(&self) -> ChannelView {
        self.deep_view()
    }
}

/// View of a [`Guild`].
pub struct GuildView {
    pub id: Seq<char>,
    pub name: Seq<char>,
    pub description: Option<Seq<char>>,
    pub icon: Option<Seq<char>>,
    pub public: bool,
    pub channels: Seq<ChannelView>,
    pub roles: Seq<RoleView>,
    pub members: Seq<MemberView>,
    pub creation: i64,
    pub bans: Seq<Seq<char>>,
    pub invites: Seq<InviteView>,
}

/// A community: channels, roles, members, bans and invites under one id.
#[derive(Debug)]
pub struct Guild {
    pub id: String,
    pub name: String,
    pub description: Option<String>,
    pub icon: Option<String>,
    pub public: bool,
    pub channels: Vec<Channel>,
    pub roles: Vec<Role>,
    pub members: Vec<Member>,
    pub creation: i64,
    pub bans: Vec<String>,
    pub invites: Vec<Invite>,
}

impl DeepView for Guild {
    type V = GuildView;

    open spec fn deep_view(&self) -> GuildView {
        GuildView {
            id: self.id@,
            name: self.name@,
            description: self.description.deep_view(),
            icon: self.icon.deep_view(),
            public: self.public,
            channels: self.channels.deep_view(),
            roles: self.roles.deep_view(),
            members: self.members.deep_view(),
            creation: self.creation,
            bans: self.bans.deep_view(),
            invites: self.invites.deep_view(),
        }
    }
}

impl View for Guild {
    type V = GuildView;

    open spec fn view(&self) -> GuildView {
        self.deep_view()
    }
}

/// Copies an optional text.
pub fn clone_text(text: &Option<String>) -> (res: Option<String>)
    ensures
        res.deep_view() == text.deep_view(),
{
    match text {
        Some(s) => Some(s.clone()),
        None => None,
    }
}

/// Copies a list of texts.
pub fn clone_texts(texts: &Vec<String>) -> (res: Vec<String>)
    ensures
        res.deep_view() == texts.deep_view(),
{
    let mut res: Vec<String> = Vec::new();
    let mut i: usize = 0;
    while i < texts.len()
        invariant
            i <= texts.len(),
            res.len() == i,
            forall|j: int| 0 <= j < i ==> res[j]@ == texts[j]@,
        decreases texts.len() - i,
    {
        res.push(texts[i].clone());
        i += 1;
    }
    assert(res.deep_view() =~= texts.deep_view());
    res
}

/// Copies a list of roles.
pub fn clone_roles(roles: &Vec<Role>) -> (res: Vec<Role>)
    ensures
        res.deep_view() == roles.deep_view(),
{
    let mut res: Vec<Role> = Vec::new();
    let mut i: usize = 0;
    while i < roles.len()
        invariant
            i <= roles.len(),
            res.len() == i,
            forall|j: int| 0 <= j < i ==> res[j]@ == roles[j]@,
        decreases roles.len() - i,
    {
        res.push(roles[i].clone());
        i += 1;
    }
    assert(res.deep_view() =~= roles.deep_view());
    res
}


/// View of a [`ReturnedGuild`].
pub struct ReturnedGuildView {
    pub id: Seq<char>,
    pub name: Seq<char>,
    pub description: Option<Seq<char>>,
    pub icon: Option<Seq<char>>,
    pub public: bool,
    pub roles: Seq<RoleView>,
    pub members: usize,
    pub creation: i64,
}

/// What a guild shows of itself: its profile, its roles and its head count.
#[derive(Debug)]
pub struct ReturnedGuild {
    pub id: String,
    pub name: String,
    pub description: Option<String>,
    pub icon: Option<String>,
    pub public: bool,
    pub roles: Vec<Role>,
    /// Number of members.
    pub members: usize,
    pub creation: i64,
}

impl DeepView for ReturnedGuild {
    type V = ReturnedGuildView;

    open spec fn deep_view(&self) -> ReturnedGuildView {
        ReturnedGuildView {
            id: self.id@,
            name: self.name@,
            description: self.description.deep_view(),
            icon: self.icon.deep_view(),
            public: self.public,
            roles: self.roles.deep_view(),
            members: self.members,
            creation: self.creation,
        }
    }
}

impl View for ReturnedGuild {
    type V = ReturnedGuildView;

    open spec fn view(&self) -> ReturnedGuildView {
        self.deep_view()
    }
}

/// View of a [`User`].
pub struct UserView {
    pub id: Seq<char>,
    pub token: Option<Seq<char>>,
    pub email: Seq<char>,
    pub password: Seq<char>,
    pub username: Seq<char>,
    pub discriminator: Seq<char>,
    pub avatar: Option<Seq<char>>,
    pub about: Option<Seq<char>>,
    pub creation: i64,
    pub kind: Seq<char>,
    pub owner: Option<Seq<char>>,
    pub verified: bool,
    pub verificator: Option<Seq<char>>,
    pub otp: Option<Seq<char>>,
}

/// An account as it is stored.
#[derive(Debug)]
pub struct User {
    pub id: String,
    /// The bearer token last issued to the account.
    pub token: Option<String>,
    pub email: String,
    /// The password hash in PHC string format.
    pub password: String,
    pub username: String,
    pub discriminator: String,
    pub avatar: Option<String>,
    pub about: Option<String>,
    pub creation: i64,
    pub kind: String,
    pub owner: Option<String>,
    pub verified: bool,
    /// The one-time code that verifies the address or authorizes a reset.
    pub verificator: Option<String>,
    /// The shared secret of the second factor, when one is set up.
    pub otp: Option<String>,
}

impl DeepView for User {
    type V = UserView;

    open spec fn deep_view(&self) -> UserView {
        UserView {
            id: self.id@,
            token: self.token.deep_view(),
            email: self.email@,
            password: self.password@,
            username: self.username@,
            discriminator: self.discriminator@,
            avatar: self.avatar.deep_view(),
            about: self.about.deep_view(),
            creation: self.creation,
            kind: self.kind@,
            owner: self.owner.deep_view(),
            verified: self.verified,
            verificator: self.verificator.deep_view(),
            otp: self.otp.deep_view(),
        }
    }
}

impl View for User {
    type V = UserView;

    open spec fn view(&self) -> UserView {
        self.deep_view()
    }
}

/// View of a [`ReturnedUser`].
pub struct ReturnedUserView {
    pub id: Seq<char>,
    pub username: Seq<char>,
    pub discriminator: Seq<char>,
    pub avatar: Option<Seq<char>>,
    pub about: Option<Seq<char>>,
    pub creation: i64,
}

/// What anyone may see of an account.
#[derive(Debug)]
pub struct ReturnedUser {
    pub id: String,
    pub username: String,
    pub discriminator: String,
    pub avatar: Option<String>,
    pub about: Option<String>,
    pub creation: i64,
}

impl DeepView for ReturnedUser {
    type V = ReturnedUserView;

    open spec fn deep_view(&self) -> ReturnedUserView {
        ReturnedUserView {
            id: self.id@,
            username: self.username@,
            discriminator: self.discriminator@,
            avatar: self.avatar.deep_view(),
            about: self.about.deep_view(),
            creation: self.creation,
        }
    }
}

impl View for ReturnedUser {
    type V = ReturnedUserView;

    open spec fn view(&self) -> ReturnedUserView {
        self.deep_view()
    }
}

/// View of a [`ReturnedUserMe`].
pub struct ReturnedUserMeView {
    pub id: Seq<char>,
    pub email: Seq<char>,
    pub username: Seq<char>,
    pub discriminator: Seq<char>,
    pub avatar: Option<Seq<char>>,
    pub about: Option<Seq<char>>,
    pub creation: i64,
    pub tfa: bool,
}

/// What the owner of an account sees of it.
#[derive(Debug)]
pub struct ReturnedUserMe {
    pub id: String,
    pub email: String,
    pub username: String,
    pub discriminator: String,
    pub avatar: Option<String>,
    pub about: Option<String>,
    pub creation: i64,
    /// Whether a second factor is set up.
    pub tfa: bool,
}

impl DeepView for ReturnedUserMe {
    type V = ReturnedUserMeView;

    open spec fn deep_view(&self) -> ReturnedUserMeView {
        ReturnedUserMeView {
            id: self.id@,
            email: self.email@,
            username: self.username@,
            discriminator: self.discriminator@,
            avatar: self.avatar.deep_view(),
            about: self.about.deep_view(),
            creation: self.creation,
            tfa: self.tfa,
        }
    }
}

impl View for ReturnedUserMe {
    type V = ReturnedUserMeView;

    open spec fn view(&self) -> ReturnedUserMeView {
        self.deep_view()
    }
}

/// Credentials presented to sign in.
#[derive(Debug)]
pub struct SigninBody {
    pub email: String,
    pub password: String,
    pub otp: Option<String>,
}

/// The bearer token handed out on signing in.
#[derive(Debug)]
pub struct SigninResp {
    pub token: String,
}

/// What a new account is made from.
#[derive(Debug)]
pub struct SignupBody {
    pub email: String,
    pub username: String,
    pub password: String,
}

/// A request to reset the password of the account with this address.
#[derive(Debug)]
pub struct ResetRequestBody {
    pub email: String,
}

/// The new password of a reset.
#[derive(Debug)]
pub struct ResetBody {
    pub password: String,
}

/// Changes to one's own account; absent fields stay as they are.
#[derive(Debug)]
pub struct PatchMeBody {
    pub current_password: String,
    pub password: Option<String>,
    pub username: Option<String>,
    pub email: Option<String>,
    pub discriminator: Option<String>,
    pub about: Option<String>,
}

/// A freshly generated second-factor secret in its three renderings.
#[derive(Debug)]
pub struct ReturnedOtp {
    pub secret: String,
    pub uri: String,
    pub qr: String,
}

/// Password and one-time code that authorize a change of the second factor.
#[derive(Debug)]
pub struct SetupOTPBody {
    pub password: String,
    pub otp: String,
}

/// What a new guild is made from.
#[derive(Debug)]
pub struct CreateGuildBody {
    pub name: String,
    pub description: Option<String>,
}

/// Changes to a guild; absent fields stay as they are. `owner` names the
/// member who is to become the owner.
#[derive(Debug)]
pub struct PatchGuildBody {
    pub name: Option<String>,
    pub description: Option<String>,
    pub public: Option<bool>,
    pub owner: Option<String>,
}

/// What a new invite is made from.
#[derive(Debug)]
pub struct CreateInviteBody {
    /// Seconds from now until the invite expires.
    pub expiration: i64,
    pub max_uses: usize,
}

} // verus!
