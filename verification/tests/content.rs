use escape_core::content::{
    index_content_bundle, validate_content_bundle, ContentBundle, ContentBundleError, ContentConditions,
    ContentIndexError, ContentManifest, EndingDef, LocationDef, ParsedContent, PublicSecretDef, SecretObject,
    CONTENT_BUNDLE_KIND, CONTENT_BUNDLE_SCHEMA_VERSION,
};
use escape_core::scene_page::{body_blocks, SceneMode};
use escape_core::state::NewGameError;
use escape_core::{new_game, new_game_from_content, new_game_from_content_at};

fn conditions(locations: &[&str]) -> ContentConditions {
    ContentConditions {
        locations: locations.iter().map(|s| s.to_string()).collect(),
        disaster_types: vec![],
        required_items: vec![],
        required_flags: vec![],
        forbidden_flags: vec![],
        required_clues: vec![],
        min_resources: vec![],
        max_resources: vec![],
        min_abilities: vec![],
    }
}

fn location(id: &str, connections: &[&str]) -> LocationDef {
    LocationDef {
        id: id.into(),
        name: id.to_uppercase(),
        description: String::new(),
        connections: connections.iter().map(|s| s.to_string()).collect(),
        tags: vec![],
        danger: 0,
    }
}

fn ending(id: &str, locations: &[&str], hint: Option<&str>) -> EndingDef {
    EndingDef {
        id: id.into(),
        name: id.into(),
        kind: "normal".into(),
        priority: 0,
        conditions: conditions(locations),
        local_hint_id: hint.map(String::from),
        text: String::new(),
    }
}

fn secret(id: &str) -> PublicSecretDef {
    PublicSecretDef {
        id: id.into(),
        title: "Door".into(),
        unlock_flags: vec![],
        public_hint_steps: vec!["knock".into()],
        puzzle_prompt: None,
        placeholder_ip_address: None,
        final_hint_policy: None,
        reward_text: None,
    }
}

fn parsed(locations: Vec<LocationDef>) -> ParsedContent {
    ParsedContent {
        locations: locations.into_iter().map(Ok).collect(),
        items: vec![],
        encounters: vec![],
        endings: vec![],
        achievements: vec![],
        secrets: vec![],
    }
}

#[test]
fn index_sorts_by_id_and_finds_entries() {
    let mut p = parsed(vec![location("hall", &["dev_desk"]), location("dev_desk", &["hall"])]);
    p.endings = vec![Ok(ending("escape", &["hall"], Some("s1")))];
    p.secrets = vec![Ok(secret("s1"))];
    let ix = index_content_bundle(p).unwrap();
    assert_eq!(ix.locations_len(), 2);
    assert_eq!(ix.location("hall").unwrap().name, "HALL");
    assert!(ix.location("roof").is_none());
    assert_eq!(ix.endings_len(), 1);
    assert_eq!(ix.secret("s1").unwrap().title, "Door");
    let g = new_game_from_content(3, &ix).unwrap();
    assert_eq!(g.location_id, "dev_desk");
    assert_eq!((g.player.health, g.player.sanity, g.player.battery), (100, 100, 100));
    assert_eq!(
        new_game_from_content_at(3, &ix, "roof").unwrap_err(),
        NewGameError::UnknownStartLocation("roof".into())
    );
    assert_eq!(
        NewGameError::UnknownStartLocation("roof".into()).message(),
        "unknown start location: roof"
    );
}

#[test]
fn index_rejects_duplicates_and_unknown_places_in_order() {
    let p = parsed(vec![location("a", &[]), location("a", &[])]);
    let e = index_content_bundle(p).unwrap_err();
    assert_eq!(e, ContentIndexError::DuplicateId { section: "locations".into(), id: "a".into() });
    assert_eq!(e.message(), "duplicate locations id: a");
    let p = parsed(vec![location("a", &["b"])]);
    assert_eq!(
        index_content_bundle(p).unwrap_err(),
        ContentIndexError::UnknownLocationConnection { location_id: "a".into(), connected_location_id: "b".into() }
    );
    let mut p = parsed(vec![location("a", &[])]);
    p.endings = vec![Ok(ending("end", &["a", "nowhere"], None))];
    assert_eq!(
        index_content_bundle(p).unwrap_err(),
        ContentIndexError::UnknownEndingLocation { ending_id: "end".into(), location_id: "nowhere".into() }
    );
    let mut p = parsed(vec![location("a", &[])]);
    let bad = ContentIndexError::InvalidSectionItem { section: "items".into(), id: Some("x".into()), message: "m".into() };
    p.items = vec![Err(bad.clone())];
    assert_eq!(index_content_bundle(p).unwrap_err(), bad);
    assert_eq!(bad.message(), "invalid items item x: m");
}

fn bundle(version: u32, kind: &str, secrets: Vec<Option<SecretObject>>) -> ContentBundle {
    ContentBundle {
        schema_version: version,
        kind: kind.into(),
        source: "test".into(),
        runtime: None,
        manifest: ContentManifest { schema_version: 1, source: "test".into(), counts: vec![] },
        secrets,
    }
}

#[test]
fn bundle_validation() {
    assert_eq!(validate_content_bundle(&bundle(CONTENT_BUNDLE_SCHEMA_VERSION, CONTENT_BUNDLE_KIND, vec![])), Ok(()));
    assert_eq!(
        validate_content_bundle(&bundle(2, CONTENT_BUNDLE_KIND, vec![])),
        Err(ContentBundleError::UnsupportedSchemaVersion(2))
    );
    assert_eq!(
        validate_content_bundle(&bundle(1, "other", vec![])),
        Err(ContentBundleError::UnsupportedKind("other".into()))
    );
    let leaky = SecretObject { id: None, field_names: vec!["title".into(), "office_location".into(), "final_hint".into()] };
    let e = validate_content_bundle(&bundle(1, CONTENT_BUNDLE_KIND, vec![None, Some(leaky)])).unwrap_err();
    assert_eq!(
        e,
        ContentBundleError::PrivateSecretField { secret_id: "<missing>".into(), field: "final_hint".into() }
    );
    assert_eq!(e.message(), "public secret <missing> has private-only field: final_hint");
    assert_eq!(
        ContentBundleError::UnsupportedSchemaVersion(7).message(),
        "unsupported content bundle schema version: 7"
    );
}

#[test]
fn body_blocks_add_the_secret_hint_on_an_ending() {
    let mut p = parsed(vec![location("a", &[])]);
    p.secrets = vec![Ok(secret("s1"))];
    let ix = index_content_bundle(p).unwrap();
    let e = ending("end", &[], Some("s1"));
    let blocks = body_blocks(&ix, Some(&e), &SceneMode::Ending, "It ends.", "end", &new_game(1));
    assert_eq!(blocks.len(), 2);
    assert_eq!(blocks[0].kind, "system");
    assert_eq!(blocks[1].kind, "clue");
    assert_eq!(blocks[1].text, "현실 연결 힌트: Door\n1. knock");
    let blocks = body_blocks(&ix, None, &SceneMode::Encounter, "Hi.", "enc", &new_game(1));
    assert_eq!(blocks.len(), 1);
    assert_eq!(blocks[0].kind, "narration");
}
