use plant_tower_rs::mqtt::topic::{make_ha_topic, topic_level_at};

fn level(topic: &str, index: usize) -> Option<String> {
    topic_level_at(topic, index)
}

#[test]
fn ha_topic_is_built_from_its_parts() {
    assert_eq!(make_ha_topic("switch", "pump", "set"), "homeassistant/switch/pump/set");
    assert_eq!(make_ha_topic("", "", ""), "homeassistant///");
}

#[test]
fn levels_are_split_at_slashes() {
    let topic = "homeassistant/switch/pump/set";
    assert_eq!(level(topic, 0).as_deref(), Some("homeassistant"));
    assert_eq!(level(topic, 1).as_deref(), Some("switch"));
    assert_eq!(level(topic, 2).as_deref(), Some("pump"));
    assert_eq!(level(topic, 3).as_deref(), Some("set"));
    assert_eq!(level(topic, 4), None);
}

#[test]
fn levels_agree_with_str_split() {
    for topic in ["", "/", "a", "a/b", "a//b", "/a/b/", "a/b/c", "ä/ö/ü/ß", "x/y/"] {
        for index in 0..5 {
            assert_eq!(
                level(topic, index),
                topic.split('/').nth(index).map(String::from),
                "topic {:?} level {}",
                topic,
                index
            );
        }
    }
}

#[test]
fn empty_levels() {
    assert_eq!(level("", 0).as_deref(), Some(""));
    assert_eq!(level("", 1), None);
    assert_eq!(level("a//b", 1).as_deref(), Some(""));
    assert_eq!(level("a/b/", 2).as_deref(), Some(""));
}
