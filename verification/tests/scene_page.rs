use escape_core::content::{LocationDef, PublicSecretDef};
use escape_core::new_game;
use escape_core::scene_page::{
    action_kind, battery_status, chapter_label_for_scene, health_status, hunger_status, pressure_cues,
    public_secret_summary, sanity_status, status_summary, thirst_status,
};

fn location(tags: &[&str]) -> LocationDef {
    LocationDef {
        id: "room".into(),
        name: "Room".into(),
        description: String::new(),
        connections: vec![],
        tags: tags.iter().map(|t| t.to_string()).collect(),
        danger: 0,
    }
}

#[test]
fn resource_bands() {
    assert_eq!(health_status(20).band, "critical");
    assert_eq!(health_status(21).band, "warning");
    assert_eq!(health_status(51).text, "정상 범위");
    assert_eq!(sanity_status(30).band, "warning");
    assert_eq!(sanity_status(31).text, "안정");
    assert_eq!(battery_status(41).text, "41%");
    assert_eq!(battery_status(-5).text, "-5%");
    assert_eq!(battery_status(10).band, "critical");
    assert_eq!(hunger_status(100).band, "critical");
    assert_eq!(hunger_status(80).text, "허기짐");
    assert_eq!(thirst_status(59).band, "normal");
    assert_eq!(thirst_status(90).text, "고갈");
}

#[test]
fn pressure_cues_in_order() {
    let mut g = new_game(1);
    assert!(pressure_cues(&g.player).is_empty());
    g.player.sanity = 15;
    g.player.thirst = 70;
    let cues = pressure_cues(&g.player);
    assert_eq!(cues.len(), 2);
    assert_eq!((cues[0].kind.as_str(), cues[0].severity.as_str()), ("low_sanity", "critical"));
    assert_eq!((cues[1].kind.as_str(), cues[1].severity.as_str()), ("high_thirst", "warning"));
    let s = status_summary(&g);
    assert_eq!(s.resources.len(), 5);
    assert_eq!(s.resources[2].text, "41%");
    assert_eq!(s.warnings, vec![cues[0].message.clone(), cues[1].message.clone()]);
}

#[test]
fn chapter_labels() {
    let mut g = new_game(1);
    g.turn = 4;
    assert_eq!(chapter_label_for_scene(&g, &location(&[]), "printer"), "격리 4턴");
    assert_eq!(chapter_label_for_scene(&g, &location(&["wuxia"]), "printer"), "천기록 5쪽");
    assert_eq!(chapter_label_for_scene(&g, &location(&[]), "wuxia_gate"), "천기록 5쪽");
    assert_eq!(chapter_label_for_scene(&g, &location(&[]), "wuxia"), "격리 4턴");
}

#[test]
fn action_kinds() {
    assert_eq!(action_kind("choice:wait"), "choice");
    assert_eq!(action_kind("move:hall"), "move");
    assert_eq!(action_kind("use:key"), "use");
    assert_eq!(action_kind("train:logic"), "unknown");
    assert_eq!(action_kind("use"), "unknown");
}

#[test]
fn secret_summary_lines() {
    let s = PublicSecretDef {
        id: "s".into(),
        title: "Vault".into(),
        unlock_flags: vec![],
        public_hint_steps: vec!["look".into(), "listen".into()],
        puzzle_prompt: Some("why".into()),
        placeholder_ip_address: None,
        final_hint_policy: None,
        reward_text: Some("prize".into()),
    };
    assert_eq!(public_secret_summary(&s), "현실 연결 힌트: Vault\n1. look\n2. listen\n퍼즐: why\nprize");
}
