use leaguecord::front::app::{App, Message as AppMessage};
use leaguecord::front::changing_text::ChangingText;
use leaguecord::front::group::{DataFetchError, DataFetchState, Group as GroupScene, Message as GroupMessage};
use leaguecord::front::home::{Effect, GroupCreateError, Home, Message as HomeMessage};
use leaguecord::front::home_app::{HomeApp, Message as HomeAppMessage, Scene as HomeScene};
use leaguecord::front::route::Route;
use leaguecord::front::scene::Scene;
use leaguecord::clock::EpochTime;
use leaguecord::shared::GroupData;

#[test]
fn scene_labels() {
    assert_eq!(Scene::Home.label(), "Home");
    assert_eq!(Scene::Group { group_id: 3 }.label(), "Group");
    assert_eq!(Scene::GroupNotFound.label(), "Group not found");
    assert_eq!(Scene::About.label(), "About");
    assert_eq!(Scene::Contact.label(), "Contact");
    assert_eq!(Scene::NotFound.label(), "Not found");
    assert_eq!(HomeScene::Group { group_id: 1 }.label(), "Group");
}

#[test]
fn route_scenes() {
    let (scenes, first) = Route::Home.scenes();
    assert_eq!(scenes, vec![Scene::Home, Scene::About, Scene::Contact]);
    assert_eq!(first, 0);
    let (scenes, first) = Route::Group { id: 9 }.scenes();
    assert_eq!(scenes[first], Scene::Group { group_id: 9 });
    assert_eq!(scenes.len(), 4);
    assert_eq!(Route::GroupNotFound.scenes(), (vec![Scene::GroupNotFound], 0));
    assert_eq!(Route::NotFound.scenes(), (vec![Scene::NotFound], 0));
}

#[test]
fn app_frame() {
    let scenes = vec![Scene::Home, Scene::About];
    let mut app = App::create(&scenes, 1);
    assert_eq!(app.current_scene(), Scene::About);
    assert_eq!(App::create(&scenes, 7).current_scene(), Scene::Home);
    assert!(app.update(AppMessage::SwitchScene(Scene::Contact)));
    assert_eq!(app.current_scene(), Scene::Contact);
    assert_eq!(app.button_class(Scene::Contact), "scene_button current");
    assert_eq!(app.button_class(Scene::Home), "scene_button");
}

#[test]
fn home_app_frame() {
    let mut app = HomeApp::create(Some(4));
    assert_eq!(app.current_scene(), HomeScene::Group { group_id: 4 });
    assert_eq!(HomeApp::create(None).current_scene(), HomeScene::Home);
    assert!(app.update(HomeAppMessage::SwitchScene(HomeScene::About)));
    assert_eq!(app.current_scene(), HomeScene::About);
    assert_eq!(HomeApp::scenes(None).len(), 3);
    assert_eq!(HomeApp::scenes(Some(2))[1], HomeScene::Group { group_id: 2 });
    assert_eq!(app.button_class(HomeScene::About), "scene_button current");
    assert_eq!(app.button_class(HomeScene::Home), "scene_button");
    assert_eq!(app.button_class(HomeScene::Group { group_id: 4 }), "scene_button");
}

#[test]
fn changing_text_cycles() {
    let texts = vec!["a", "b", "c"];
    let mut t = ChangingText::create();
    assert_eq!(t.text(&texts), Some("a"));
    t.update(3);
    assert_eq!(t.text(&texts), Some("b"));
    t.update(3);
    t.update(3);
    assert_eq!(t.text(&texts), Some("a"));
    assert_eq!(t.text(&vec![]), None);
}

#[test]
fn home_scene_requests() {
    let mut home = Home::create();
    assert!(!home.group_creation_requested());
    assert_eq!(home.update(HomeMessage::CreateGroup), Effect::RequestGroup);
    assert!(home.group_creation_requested());
    assert_eq!(home.update(HomeMessage::GroupCreated(5)), Effect::ShowGroup(5));
    assert!(home.group_creation_requested());
    assert_eq!(
        home.update(HomeMessage::GroupCreateError(GroupCreateError::Fetch)),
        Effect::ReportError(GroupCreateError::Fetch)
    );
    assert!(!home.group_creation_requested());
}

#[test]
fn home_scene_answers() {
    assert_eq!(Home::created_group_id(200, "123"), Ok(123));
    assert_eq!(Home::created_group_id(200, "abc"), Err(GroupCreateError::Parsing));
    assert_eq!(Home::created_group_id(500, "123"), Err(GroupCreateError::Status(500)));
    assert_eq!(GroupCreateError::RequestCreation.reason(), "Failed to create request");
    assert_eq!(GroupCreateError::Fetch.reason(), "The server failed to respond");
    assert_eq!(GroupCreateError::Parsing.reason(), "Failed to understand the server's response");
    assert_eq!(
        GroupCreateError::Status(404).reason(),
        "The server failed to handle the group creation request (404)"
    );
    assert_eq!(
        Home::created_notice(77),
        vec!["A new group has been created with id:".to_string(), "77".to_string()]
    );
    assert_eq!(Home::error_notice(GroupCreateError::Fetch)[1], "The server failed to respond");
}

#[test]
fn group_scene() {
    let mut scene = GroupScene::create();
    assert!(matches!(scene.data_fetch_state(), DataFetchState::Pending));
    assert!(scene.update(GroupMessage::Redraw));
    assert!(matches!(scene.data_fetch_state(), DataFetchState::Pending));
    let data = GroupData::new(3, EpochTime::Since { secs: 10 }, 2, "xyz".to_string());
    scene.update(GroupMessage::DataReceived(data));
    match scene.data_fetch_state() {
        DataFetchState::Received(d) => assert_eq!(d.user_count(), 2),
        _ => panic!("expected the data"),
    }
    scene.update(GroupMessage::DataFetchError(DataFetchError::Parsing));
    assert!(matches!(scene.data_fetch_state(), DataFetchState::Failed(DataFetchError::Parsing)));
}

#[test]
fn group_scene_texts() {
    assert_eq!(DataFetchError::RequestCreation.message(), "Failed to create the request");
    assert_eq!(
        DataFetchError::Status(503).message(),
        "The server failed to handle the group data fetch request (503)"
    );
    assert_eq!(DataFetchError::from_status(200), None);
    assert_eq!(DataFetchError::from_status(404), Some(DataFetchError::Status(404)));
    assert_eq!(
        GroupScene::fetch_error_notice(12, DataFetchError::Fetch),
        vec![
            "An error occured while requesting data about group 12".to_string(),
            "The server failed to respond".to_string()
        ]
    );
    assert_eq!(GroupScene::title(5), "Group 5");
    assert_eq!(GroupScene::member_count_text(3), "Member count: 3");
    assert_eq!(GroupScene::join_link("abc"), "https://discord.gg/abc");
}
