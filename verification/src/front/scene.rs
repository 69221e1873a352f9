//! The scenes of the web site, between which its header switches.
use vstd::prelude::*;

verus! {

/// A page of the site.
#[derive(Debug, Clone, Copy, PartialEq, Eq, Structural)]
pub enum Scene {
    Home,
    About,
    Contact,
    Group { group_id: u64 },
    GroupNotFound,
    NotFound,
}

/// The name of a scene on its header button.
pub open spec fn scene_label(scene: Scene) -> Seq<char> {
    match scene {
        Scene::Home => "Home"@,
        Scene::Group { .. } => "Group"@,
        Scene::GroupNotFound => "Group not found"@,
        Scene::About => "About"@,
        Scene::Contact => "Contact"@,
        Scene::NotFound => "Not found"@,
    }
}

impl Scene {
    /// The name of this scene on its header button.
    pub fn label(&self) -> (r: &'static str)
        ensures
            r@ == scene_label(*self),
    {
        match self {
            Scene::Home => "Home",
            Scene::Group { .. } => "Group",
            Scene::GroupNotFound => "Group not found",
            Scene::About => "About",
            Scene::Contact => "Contact",
            Scene::NotFound => "Not found",
        }
    }
}

} // verus!
