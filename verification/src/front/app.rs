//! The page frame: a header with a button per scene, and the current scene.
use crate::front::scene::Scene;
use vstd::prelude::*;

verus! {

/// What the frame reacts to.
#[derive(Debug, Clone, Copy, PartialEq, Eq, Structural)]
pub enum Message {
    SwitchScene(Scene),
}

/// The frame and the scene it shows.
#[derive(Debug)]
pub struct App {
    current_scene: Scene,
}

impl View for App {
    type V = Scene;

    closed spec fn view(&self) -> Scene {
        self.current_scene
    }
}

impl App {
    /// A frame over `scenes` showing the one at `default_scene_index`, or the
    /// first where that position is out of range.
    pub fn create(scenes: &Vec<Scene>, default_scene_index: usize) -> (r: App)
        requires
            scenes@.len() > 0,
        ensures
            r@ == if default_scene_index < scenes@.len() {
                scenes@[default_scene_index as int]
            } else {
                scenes@[0]
            },
    {
        let current_scene = if default_scene_index < scenes.len() {
            scenes[default_scene_index]
        } else {
            scenes[0]
        };
        App { current_scene }
    }

    /// Reacts to `msg`; the frame is drawn again.
    pub fn update(&mut self, msg: Message) -> (r: bool)
        ensures
            r,
            match msg {
                Message::SwitchScene(scene) => final(self)@ == scene,
            },
    {
        match msg {
            Message::SwitchScene(scene) => {
                self.current_scene = scene;
                true
            },
        }
    }

    /// The scene shown.
    pub fn current_scene(&self) -> (r: Scene)
        ensures
            r == self@,
    {
        self.current_scene
    }

    /// The CSS class of the header button of `scene`.
    pub fn button_class(&self, scene: Scene) -> (r: &'static str)
        ensures
            r@ == if scene == self@ {
                "scene_button current"@
            } else {
                "scene_button"@
            },
    {
        if scene == self.current_scene {
            "scene_button current"
        } else {
            "scene_button"
        }
    }
}

} // verus!
