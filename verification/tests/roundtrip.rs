//! Loading a story from its structured text form, writing it back, and
//! loading it again yields an equivalent story.

use fiction_engine::story::{Item, Scene, Story};
use serde_yaml::{Mapping, Value};

fn item_to_value(it: &Item) -> Value {
    let mut m = Mapping::new();
    m.insert(
        Value::String("name".to_string()),
        Value::String(it.name.clone()),
    );
    m.insert(
        Value::String("description".to_string()),
        Value::String(it.description.clone()),
    );
    Value::Mapping(m)
}

fn scene_to_value(sc: &Scene) -> Value {
    let mut items = Mapping::new();
    for (key, it) in &sc.items {
        items.insert(Value::String(key.clone()), item_to_value(it));
    }
    let mut m = Mapping::new();
    m.insert(
        Value::String("name".to_string()),
        Value::String(sc.name.clone()),
    );
    m.insert(
        Value::String("description".to_string()),
        Value::String(sc.description.clone()),
    );
    m.insert(Value::String("items".to_string()), Value::Mapping(items));
    m.insert(
        Value::String("is_first_scene".to_string()),
        Value::Bool(sc.is_first_scene),
    );
    Value::Mapping(m)
}

fn story_to_value(story: &Story) -> Value {
    let mut scenes = Mapping::new();
    for (key, sc) in &story.scenes {
        scenes.insert(Value::String(key.clone()), scene_to_value(sc));
    }
    let mut m = Mapping::new();
    m.insert(Value::String("scenes".to_string()), Value::Mapping(scenes));
    Value::Mapping(m)
}

fn field<'a>(m: &'a Mapping, name: &str) -> &'a Value {
    m.get(name).unwrap()
}

fn value_to_item(v: &Value) -> Item {
    let m = v.as_mapping().unwrap();
    Item {
        name: field(m, "name").as_str().unwrap().to_string(),
        description: field(m, "description").as_str().unwrap().to_string(),
    }
}

fn value_to_scene(v: &Value) -> Scene {
    let m = v.as_mapping().unwrap();
    let mut items = Vec::new();
    for (key, it) in field(m, "items").as_mapping().unwrap() {
        items.push((key.as_str().unwrap().to_string(), value_to_item(it)));
    }
    Scene::new(
        field(m, "name").as_str().unwrap().to_string(),
        field(m, "description").as_str().unwrap().to_string(),
        items,
        field(m, "is_first_scene").as_bool().unwrap(),
    )
    .unwrap()
}

fn value_to_story(v: &Value) -> Story {
    let m = v.as_mapping().unwrap();
    let mut scenes = Vec::new();
    for (key, sc) in field(m, "scenes").as_mapping().unwrap() {
        scenes.push((key.as_str().unwrap().to_string(), value_to_scene(sc)));
    }
    Story::new(scenes).unwrap()
}

fn sample_story() -> Story {
    let torch = (
        "torch".to_string(),
        Item {
            name: "torch".to_string(),
            description: "A wooden torch.".to_string(),
        },
    );
    let rock = (
        "rock".to_string(),
        Item {
            name: "rock".to_string(),
            description: "Just a rock.".to_string(),
        },
    );
    let cave = Scene::new(
        "Cave".to_string(),
        "A dark cave.".to_string(),
        vec![torch, rock],
        true,
    )
    .unwrap();
    let hall = Scene::new("Hall".to_string(), "A long hall.".to_string(), vec![], false).unwrap();
    Story::new(vec![("Cave".to_string(), cave), ("Hall".to_string(), hall)]).unwrap()
}

#[test]
fn story_survives_a_yaml_round_trip() {
    let story = sample_story();
    let text = serde_yaml::to_string(&story_to_value(&story)).unwrap();
    let reread: Value = serde_yaml::from_str(&text).unwrap();
    let reloaded = value_to_story(&reread);
    assert_eq!(story, reloaded);
}

#[test]
fn story_loads_from_yaml_text() {
    let text = "scenes:\n  Cave:\n    name: Cave\n    description: A dark cave.\n    items:\n      torch:\n        name: torch\n        description: A wooden torch.\n    is_first_scene: true\n";
    let parsed: Value = serde_yaml::from_str(text).unwrap();
    let story = value_to_story(&parsed);
    let scene = story.initial_scene().unwrap();
    assert_eq!(scene.name, "Cave");
    assert_eq!(scene.describe("torch".to_string()), "A wooden torch.");
}
