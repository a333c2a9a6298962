use nimi::error::ConfigFailure;
use nimi::name_map::NameMap;
use nimi::path::join;
use nimi::process_manager::service::{ConfigData, ConfigDataMap};
use nimi::process_manager::service_manager::config_dir::{
    entry_bytes, push_member, ConfigDir, PlanAction, StepOutcome,
};

fn entry(enable: bool, path: &str, source: &str, text: Option<&str>) -> ConfigData {
    ConfigData {
        enable,
        path: path.to_string(),
        source: source.to_string(),
        text: text.map(|t| t.to_string()),
    }
}

fn two_entries(first_a: bool) -> ConfigDataMap {
    let a = entry(false, "a.conf", "/src/a", Some("say \"hi\"\n"));
    let b = entry(true, "dir/b.conf", "/src/b", None);
    let mut map = NameMap::new();
    if first_a {
        map.insert("a".to_string(), a);
        map.insert("b".to_string(), b);
    } else {
        map.insert("b".to_string(), b);
        map.insert("a".to_string(), a);
    }
    map
}

#[test]
fn empty_configuration_has_the_name_of_the_empty_object() {
    let map: ConfigDataMap = NameMap::new();
    assert_eq!(ConfigDir::canonical_bytes(&map), Ok(b"{}".to_vec()));
    assert_eq!(
        ConfigDir::generate_config_directory_name(&map),
        Ok("nimi-config-44136fa355b3678a1146ad16f7e8649e94fb4fc21fe77e8310c060f61caaff8a"
            .to_string())
    );
}

#[test]
fn canonical_text_of_one_entry() {
    let mut map = NameMap::new();
    map.insert(
        "app".to_string(),
        entry(true, "app/config.toml", "/nix/store/abc-config.toml", None),
    );
    let expected = "{\"app\":{\"enable\":true,\"path\":\"app/config.toml\",\"source\":\"/nix/store/abc-config.toml\",\"text\":null}}";
    assert_eq!(ConfigDir::canonical_bytes(&map), Ok(expected.as_bytes().to_vec()));
    assert_eq!(
        ConfigDir::generate_config_directory_name(&map),
        Ok("nimi-config-172614dd84c4f66c3aac5b7ff5a7b7b2b808cef9027f56695b00e65e637c1b9b"
            .to_string())
    );
}

#[test]
fn canonical_text_escapes_texts_as_json_does() {
    let map = two_entries(true);
    let expected = "{\"a\":{\"enable\":false,\"path\":\"a.conf\",\"source\":\"/src/a\",\"text\":\"say \\\"hi\\\"\\n\"},\"b\":{\"enable\":true,\"path\":\"dir/b.conf\",\"source\":\"/src/b\",\"text\":null}}";
    assert_eq!(ConfigDir::canonical_bytes(&map), Ok(expected.as_bytes().to_vec()));
    assert_eq!(
        ConfigDir::generate_config_directory_name(&map),
        Ok("nimi-config-799e5c5030c87adcabf64c11d1f11f8c9c372be70dbbebe40bf575191eb481c0"
            .to_string())
    );
}

#[test]
fn canonical_text_is_what_serde_json_writes_for_sorted_keys() {
    let map = two_entries(false);
    let mut a = serde_json::Map::new();
    a.insert("enable".to_string(), serde_json::Value::Bool(false));
    a.insert("path".to_string(), serde_json::Value::String("a.conf".to_string()));
    a.insert("source".to_string(), serde_json::Value::String("/src/a".to_string()));
    a.insert("text".to_string(), serde_json::Value::String("say \"hi\"\n".to_string()));
    let mut b = serde_json::Map::new();
    b.insert("enable".to_string(), serde_json::Value::Bool(true));
    b.insert("path".to_string(), serde_json::Value::String("dir/b.conf".to_string()));
    b.insert("source".to_string(), serde_json::Value::String("/src/b".to_string()));
    b.insert("text".to_string(), serde_json::Value::Null);
    let mut top = serde_json::Map::new();
    top.insert("b".to_string(), serde_json::Value::Object(b));
    top.insert("a".to_string(), serde_json::Value::Object(a));
    let expected = serde_json::to_vec(&serde_json::Value::Object(top)).unwrap();
    assert_eq!(ConfigDir::canonical_bytes(&map), Ok(expected));
}

#[test]
fn name_does_not_depend_on_the_order_of_insertion() {
    let forward = two_entries(true);
    let backward = two_entries(false);
    assert_eq!(forward, backward);
    assert_eq!(
        ConfigDir::generate_config_directory_name(&forward),
        ConfigDir::generate_config_directory_name(&backward)
    );
}

#[test]
fn name_changes_with_the_payload() {
    let one = two_entries(true);
    let mut other = two_entries(true);
    other.insert("b".to_string(), entry(true, "dir/b.conf", "/src/other", None));
    assert_ne!(
        ConfigDir::generate_config_directory_name(&one),
        ConfigDir::generate_config_directory_name(&other)
    );
}

#[test]
fn every_configuration_has_a_name() {
    let mut map = NameMap::new();
    map.insert("\u{0}\"\\\n".to_string(), entry(true, "\u{7f}é\u{1f600}", "\t", Some("")));
    let name = ConfigDir::generate_config_directory_name(&map).unwrap();
    assert!(name.starts_with("nimi-config-"));
    assert_eq!(name.len(), 76);
    assert!(ConfigDir::new("/tmp", &map).is_ok());
}

#[test]
fn name_from_digest_is_prefix_and_lowercase_hex() {
    assert_eq!(ConfigDir::name_from_digest(&[]), "nimi-config-");
    assert_eq!(
        ConfigDir::name_from_digest(&[0x00, 0x0f, 0xa5, 0xff, 0x10]),
        "nimi-config-000fa5ff10"
    );
}

#[test]
fn name_from_canonical_hashes_with_sha256() {
    assert_eq!(
        ConfigDir::name_from_canonical(b"abc"),
        "nimi-config-ba7816bf8f01cfea414140de5dae2223b00361a396177a9cb410ff61f20015ad"
    );
}

#[test]
fn entry_bytes_frames_the_literals() {
    let bytes = entry_bytes(true, b"\"p\"", b"\"s\"", &Some(b"\"t\"".to_vec()));
    assert_eq!(
        bytes,
        b"{\"enable\":true,\"path\":\"p\",\"source\":\"s\",\"text\":\"t\"}".to_vec()
    );
    let bytes = entry_bytes(false, b"1", b"2", &None);
    assert_eq!(bytes, b"{\"enable\":false,\"path\":1,\"source\":2,\"text\":null}".to_vec());
}

#[test]
fn push_member_puts_commas_between_members() {
    let mut out = b"{".to_vec();
    push_member(&mut out, true, b"\"a\"", b"{}");
    assert_eq!(out, b"{\"a\":{}".to_vec());
    push_member(&mut out, false, b"\"b\"", b"{}");
    assert_eq!(out, b"{\"a\":{},\"b\":{}".to_vec());
}

#[test]
fn join_follows_posix_paths() {
    assert_eq!(join("/tmp", "x"), "/tmp/x");
    assert_eq!(join("/tmp/", "x"), "/tmp/x");
    assert_eq!(join("", "x"), "x");
    assert_eq!(join("/tmp", "/abs"), "/abs");
    assert_eq!(join("/tmp", ""), "/tmp/");
    assert_eq!(join("a/b", "c/d"), "a/b/c/d");
}

#[test]
fn join_agrees_with_the_standard_library() {
    let cases = [
        ("/tmp", "x"),
        ("/tmp/", "x"),
        ("", "x"),
        ("/tmp", "/abs"),
        ("/tmp", ""),
        ("a/b", "c/d"),
        ("/", "etc"),
    ];
    for (base, rest) in cases {
        let expected = std::path::Path::new(base).join(rest);
        assert_eq!(join(base, rest), expected.to_str().unwrap());
    }
}

#[test]
fn plan_lists_a_link_for_each_enabled_entry() {
    let map = two_entries(true);
    let mut plan = ConfigDir::new("/tmp", &map).unwrap();
    let dir = "/tmp/nimi-config-799e5c5030c87adcabf64c11d1f11f8c9c372be70dbbebe40bf575191eb481c0";
    assert!(!plan.is_finished());
    assert_eq!(plan.next_action(), PlanAction::EnsureDir { path: dir.to_string() });
    assert_eq!(plan.advance(StepOutcome::Done), Ok(()));
    assert_eq!(
        plan.next_action(),
        PlanAction::EnsureParent { location: format!("{}/dir/b.conf", dir) }
    );
    assert_eq!(plan.advance(StepOutcome::Done), Ok(()));
    assert_eq!(
        plan.next_action(),
        PlanAction::Link { source: "/src/b".to_string(), location: format!("{}/dir/b.conf", dir) }
    );
    assert_eq!(plan.advance(StepOutcome::Done), Ok(()));
    assert_eq!(plan.next_action(), PlanAction::Finished);
    assert!(plan.is_finished());
    assert_eq!(plan.as_str(), dir);
}

#[test]
fn plan_without_enabled_entries_still_makes_the_directory() {
    let dir = "/tmp/nimi-config-44136fa355b3678a1146ad16f7e8649e94fb4fc21fe77e8310c060f61caaff8a";
    let map: ConfigDataMap = NameMap::new();
    let mut plan = ConfigDir::new("/tmp", &map).unwrap();
    assert!(!plan.is_finished());
    assert_eq!(plan.next_action(), PlanAction::EnsureDir { path: dir.to_string() });
    assert_eq!(plan.advance(StepOutcome::Done), Ok(()));
    assert!(plan.is_finished());
    assert_eq!(plan.next_action(), PlanAction::Finished);
    assert_eq!(plan.as_str(), dir);

    let mut disabled = NameMap::new();
    disabled.insert("a".to_string(), entry(false, "a.conf", "/src/a", None));
    let mut plan = ConfigDir::new("/tmp", &disabled).unwrap();
    assert!(matches!(plan.next_action(), PlanAction::EnsureDir { .. }));
    assert_eq!(plan.advance(StepOutcome::AlreadyExists), Ok(()));
    assert!(plan.is_finished());
}

#[test]
fn plan_is_not_finished_before_its_last_step() {
    let map = two_entries(true);
    let mut plan = ConfigDir::new("/tmp", &map).unwrap();
    assert_eq!(plan.advance(StepOutcome::Done), Ok(()));
    assert!(!plan.is_finished());
    assert_eq!(plan.advance(StepOutcome::Done), Ok(()));
    assert!(!plan.is_finished());
    assert_eq!(plan.advance(StepOutcome::Done), Ok(()));
    assert!(plan.is_finished());
}

#[test]
fn materializing_again_meets_what_is_there_and_ends_the_same() {
    let map = two_entries(true);
    let mut first = ConfigDir::new("/tmp", &map).unwrap();
    let mut first_actions = Vec::new();
    while !first.is_finished() {
        first_actions.push(first.next_action());
        assert_eq!(first.advance(StepOutcome::Done), Ok(()));
    }
    let mut second = ConfigDir::new("/tmp", &map).unwrap();
    let mut second_actions = Vec::new();
    while !second.is_finished() {
        second_actions.push(second.next_action());
        assert_eq!(second.advance(StepOutcome::AlreadyExists), Ok(()));
    }
    assert_eq!(first_actions, second_actions);
    assert_eq!(first_actions.len(), 3);
    assert_eq!(first, second);
}

#[test]
fn plan_surfaces_a_missing_parent_with_the_entry() {
    let map = two_entries(true);
    let mut plan = ConfigDir::new("/tmp", &map).unwrap();
    assert_eq!(
        plan.advance(StepOutcome::NoParent),
        Err(ConfigFailure::NoParentDirectory(plan.as_str().to_string()))
    );
    assert_eq!(plan.advance(StepOutcome::Done), Ok(()));
    assert_eq!(
        plan.advance(StepOutcome::NoParent),
        Err(ConfigFailure::NoParentDirectory("dir/b.conf".to_string()))
    );
    assert!(!plan.is_finished());
    assert!(matches!(plan.next_action(), PlanAction::EnsureParent { .. }));
}

#[test]
fn plan_surfaces_other_failures_with_the_message() {
    let map = two_entries(true);
    let mut plan = ConfigDir::new("/tmp", &map).unwrap();
    let denied = || StepOutcome::Failed("permission denied".to_string());
    assert_eq!(
        plan.advance(denied()),
        Err(ConfigFailure::DirectoryFailed(plan.as_str().to_string(), "permission denied".to_string()))
    );
    assert!(matches!(plan.next_action(), PlanAction::EnsureDir { .. }));
    assert_eq!(plan.advance(StepOutcome::Done), Ok(()));
    assert_eq!(
        plan.advance(denied()),
        Err(ConfigFailure::ParentFailed("dir/b.conf".to_string(), "permission denied".to_string()))
    );
    assert!(matches!(plan.next_action(), PlanAction::EnsureParent { .. }));
    assert_eq!(plan.advance(StepOutcome::Done), Ok(()));
    assert_eq!(
        plan.advance(denied()),
        Err(ConfigFailure::LinkFailed("dir/b.conf".to_string(), "permission denied".to_string()))
    );
    assert!(matches!(plan.next_action(), PlanAction::Link { .. }));
}

#[test]
fn finished_plan_absorbs_further_outcomes() {
    let map: ConfigDataMap = NameMap::new();
    let mut plan = ConfigDir::new("/tmp", &map).unwrap();
    assert_eq!(plan.advance(StepOutcome::Done), Ok(()));
    assert_eq!(plan.advance(StepOutcome::Failed("late".to_string())), Ok(()));
    assert_eq!(plan.advance(StepOutcome::NoParent), Ok(()));
    assert!(plan.is_finished());
}
