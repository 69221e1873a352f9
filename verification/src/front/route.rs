//! The paths of the web site and the scenes each one offers.
use crate::front::scene::Scene;
use vstd::prelude::*;

verus! {

/// A path of the site: `/`, `/404` (and every unknown path), `/group/<id>`
/// and `/group_not_found`.
#[derive(Debug, Clone, Copy, PartialEq, Eq, Structural)]
pub enum Route {
    Home,
    NotFound,
    Group { id: u64 },
    GroupNotFound,
}

/// The scenes offered on a path, and the one shown first.
pub open spec fn route_scenes(route: Route) -> (Seq<Scene>, int) {
    match route {
        Route::Home => (seq![Scene::Home, Scene::About, Scene::Contact], 0),
        Route::Group { id } => (
            seq![Scene::Home, Scene::Group { group_id: id }, Scene::About, Scene::Contact],
            1,
        ),
        Route::GroupNotFound => (seq![Scene::GroupNotFound], 0),
        Route::NotFound => (seq![Scene::NotFound], 0),
    }
}

impl Route {
    /// The scenes offered on this path and the position of the one shown
    /// first.
    pub fn scenes(&self) -> (r: (Vec<Scene>, usize))
        ensures
            r.0@ == route_scenes(*self).0,
            r.1 == route_scenes(*self).1,
            r.1 < r.0@.len(),
    {
        match self {
            Route::Home => (vec![Scene::Home, Scene::About, Scene::Contact], 0),
            Route::Group { id } => (
                vec![Scene::Home, Scene::Group { group_id: *id }, Scene::About, Scene::Contact],
                1,
            ),
            Route::GroupNotFound => (vec![Scene::GroupNotFound], 0),
            Route::NotFound => (vec![Scene::NotFound], 0),
        }
    }
}

} // verus!
