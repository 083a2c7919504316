//! The operations of the service, one module per group of endpoints, and
//! the table of the endpoints themselves.

use vstd::prelude::*;
use crate::utils::sse::{get_route, stream_route};

pub mod account;
pub mod guilds;
pub mod invites;
pub mod structs;
pub mod users;

verus! {

/// The HTTP methods that the service answers.
#[derive(Clone, Copy, Debug, PartialEq, Eq, Structural)]
pub enum Method {
    Get,
    Post,
    Put,
    Patch,
    Delete,
}

/// View of a [`Route`].
pub struct RouteView {
    pub method: Method,
    pub uri: Seq<char>,
    pub name: Seq<char>,
}

/// One endpoint: the method and path pattern it answers to, and the name
/// of the operation that handles it.
#[derive(Clone, Copy, Debug)]
pub struct Route {
    pub method: Method,
    pub uri: &'static str,
    pub name: &'static str,
}

impl DeepView for Route {
    type V = RouteView;

    open spec fn deep_view(&self) -> RouteView {
        RouteView { method: self.method, uri: self.uri@, name: self.name@ }
    }
}

impl View for Route {
    type V = RouteView;

    open spec fn view(&self) -> RouteView {
        self.deep_view()
    }
}

/// Appends the routes of one group to the table.
fn extend(table: &mut Vec<Route>, group: Vec<Route>)
    ensures
        final(table).deep_view() == old(table).deep_view() + group.deep_view(),
{
    let ghost before = table.deep_view();
    let mut i: usize = 0;
    while i < group.len()
        invariant
            i <= group.len(),
            table.deep_view() == before + group.deep_view().take(i as int),
        decreases group.len() - i,
    {
        let ghost so_far = table.deep_view();
        table.push(group[i]);
        assert(table.deep_view() =~= so_far.push(group[i as int]@));
        assert(table.deep_view() =~= before + group.deep_view().take(i + 1));
        i += 1;
    }
    assert(group.deep_view().take(i as int) =~= group.deep_view());
}

/// Every endpoint of the service: the event stream first, then the
/// account, user, guild and invite endpoints.
pub open spec fn all_routes() -> Seq<RouteView> {
    stream_route() + account::account_routes() + users::user_routes()
        + guilds::guild_routes() + invites::invite_routes()
}

/// Every endpoint of the service, in the order in which they are mounted.
pub fn get_routes() -> (routes: Vec<Route>)
    ensures
        routes.deep_view() == all_routes(),
{
    let mut routes: Vec<Route> = Vec::new();
    assert(routes.deep_view() =~= Seq::<RouteView>::empty());
    extend(&mut routes, get_route());
    extend(&mut routes, account::get_routes());
    extend(&mut routes, users::get_routes());
    extend(&mut routes, guilds::get_routes());
    extend(&mut routes, invites::get_routes());
    assert(routes.deep_view() =~= all_routes());
    routes
}

} // verus!
