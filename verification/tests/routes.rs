use betalky::routes::{account, get_routes, guilds, invites, users, Method, Route};
use betalky::utils::sse::get_route;

fn listed(routes: &[Route]) -> Vec<(Method, &'static str, &'static str)> {
    routes.iter().map(|r| (r.method, r.uri, r.name)).collect()
}

#[test]
fn the_event_stream_has_one_endpoint() {
    assert_eq!(listed(&get_route()), vec![(Method::Get, "/sse?<token>", "stream")]);
}

#[test]
fn the_account_endpoints_are_listed() {
    assert_eq!(
        listed(&account::get_routes()),
        vec![
            (Method::Post, "/signin", "signin"),
            (Method::Post, "/signup", "signup"),
            (Method::Post, "/verify/<code>", "verify"),
            (Method::Post, "/reset/request", "reset_request"),
            (Method::Get, "/reset/<code>", "reset_check"),
            (Method::Post, "/reset/<code>", "reset"),
        ]
    );
}

#[test]
fn the_user_endpoints_are_listed() {
    assert_eq!(
        listed(&users::get_routes()),
        vec![
            (Method::Get, "/users/@me", "get_me"),
            (Method::Delete, "/users/@me", "del_me"),
            (Method::Patch, "/users/@me", "patch_me"),
            (Method::Get, "/users/@me/guilds", "get_my_guilds"),
            (Method::Get, "/users/<user_id>", "get_user"),
            (Method::Post, "/users/@me/otp", "gen_otp_secret"),
            (Method::Post, "/users/@me/otp/<secret>", "setup_otp"),
            (Method::Delete, "/users/@me/otp", "del_otp"),
        ]
    );
}

#[test]
fn the_guild_endpoints_are_listed() {
    assert_eq!(
        listed(&guilds::get_routes()),
        vec![
            (Method::Get, "/guilds/<guild_id>", "get_guild"),
            (Method::Post, "/guilds", "create_guild"),
            (Method::Patch, "/guilds/<guild_id>", "update_guild"),
            (Method::Delete, "/guilds/<guild_id>", "del_guild"),
            (Method::Get, "/guilds/<guild_id>/bans", "get_guild_bans"),
            (Method::Put, "/guilds/<guild_id>/bans/<banned_id>", "ban_member"),
            (Method::Delete, "/guilds/<guild_id>/bans/<banned_id>", "del_guild_ban"),
        ]
    );
}

#[test]
fn the_invite_endpoints_are_listed() {
    assert_eq!(
        listed(&invites::get_routes()),
        vec![
            (Method::Get, "/guilds/<guild_id>/invites", "get_guild_invites"),
            (Method::Post, "/guilds/<guild_id>/invites", "create_guild_invite"),
            (Method::Delete, "/guilds/<guild_id>/invites/<invite_code>", "delete_guild_invite"),
            (Method::Get, "/invites/<invite_code>", "get_invite"),
            (Method::Put, "/invites/<invite_code>", "join_invite"),
        ]
    );
}

#[test]
fn the_table_lists_every_group_in_order() {
    let table = listed(&get_routes());
    let mut expected = listed(&get_route());
    expected.extend(listed(&account::get_routes()));
    expected.extend(listed(&users::get_routes()));
    expected.extend(listed(&guilds::get_routes()));
    expected.extend(listed(&invites::get_routes()));
    assert_eq!(table, expected);
    assert_eq!(table.len(), 27);
    // no method and path is listed twice, and no name
    for (i, a) in table.iter().enumerate() {
        for b in &table[i + 1..] {
            assert!(a.0 != b.0 || a.1 != b.1);
            assert_ne!(a.2, b.2);
        }
    }
}
