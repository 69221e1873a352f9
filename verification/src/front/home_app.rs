//! The single-page frame of the site: the home scenes, with a group's scene
//! when the path names a group.
use vstd::prelude::*;

verus! {

/// A scene of the single-page frame.
#[derive(Debug, Clone, Copy, PartialEq, Eq, Structural)]
pub enum Scene {
    Home,
    About,
    Contact,
    Group { group_id: u64 },
}

/// What the frame reacts to.
#[derive(Debug, Clone, Copy, PartialEq, Eq, Structural)]
pub enum Message {
    SwitchScene(Scene),
}

/// The frame and the scene it shows.
#[derive(Debug)]
pub struct HomeApp {
    current_scene: Scene,
}

impl View for HomeApp {
    type V = Scene;

    closed spec fn view(&self) -> Scene {
        self.current_scene
    }
}

/// The scenes offered, with the group's scene second where there is a group.
pub open spec fn offered_scenes(group_id: Option<u64>) -> Seq<Scene> {
    match group_id {
        Some(id) => seq![Scene::Home, Scene::Group { group_id: id }, Scene::About, Scene::Contact],
        None => seq![Scene::Home, Scene::About, Scene::Contact],
    }
}

impl Scene {
    /// The name of this scene on its header button.
    pub fn label(&self) -> (r: &'static str)
        ensures
            r@ == match *self {
                Scene::Home => "Home"@,
                Scene::Group { .. } => "Group"@,
                Scene::About => "About"@,
                Scene::Contact => "Contact"@,
            },
    {
        match self {
            Scene::Home => "Home",
            Scene::Group { .. } => "Group",
            Scene::About => "About",
            Scene::Contact => "Contact",
        }
    }
}

impl HomeApp {
    /// The frame for the group `group_id`, showing its scene, or the home
    /// scene where there is no group.
    pub fn create(group_id: Option<u64>) -> (r: HomeApp)
        ensures
            r@ == match group_id {
                Some(id) => Scene::Group { group_id: id },
                None => Scene::Home,
            },
    {
        let current_scene = match group_id {
            Some(id) => Scene::Group { group_id: id },
            None => Scene::Home,
        };
        HomeApp { current_scene }
    }

    /// Reacts to `msg`; the frame is drawn again.
    pub fn update(&mut self, msg: Message) -> (r: bool)
        ensures
            r,
            match msg {
                Message::SwitchScene(scene) => final(self)@ == scene,
            },
    {
        match msg {
            Message::SwitchScene(scene) => {
                self.current_scene = scene;
                true
            },
        }
    }

    /// The scene shown.
    pub fn current_scene(&self) -> (r: Scene)
        ensures
            r == self@,
    {
        self.current_scene
    }

    /// The CSS class of the header button of `scene`.
    pub fn button_class(&self, scene: Scene) -> (r: &'static str)
        ensures
            r@ == if scene == self@ {
                "scene_button current"@
            } else {
                "scene_button"@
            },
    {
        if scene == self.current_scene {
            "scene_button current"
        } else {
            "scene_button"
        }
    }

    /// The scenes in the header.
    pub fn scenes(group_id: Option<u64>) -> (r: Vec<Scene>)
        ensures
            r@ == offered_scenes(group_id),
    {
        match group_id {
            Some(id) => vec![Scene::Home, Scene::Group { group_id: id }, Scene::About, Scene::Contact],
            None => vec![Scene::Home, Scene::About, Scene::Contact],
        }
    }
}

} // verus!
