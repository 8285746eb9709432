use ccheck::adapters::{CCheckChat, CCheckPlayer, CCheckResponse};
use ccheck::condition::{get_conditions, Actor, CompiledRegex, Condition, ConditionType, Conditions};

fn chat(text: &str) -> CCheckChat {
    CCheckChat {
        text: text.to_string(),
        bold: false,
        italic: false,
        underlined: false,
        strikethrough: false,
        obfuscated: false,
        color: None,
        extra: Vec::new(),
    }
}

fn resp(version: &str) -> CCheckResponse {
    CCheckResponse {
        version: version.to_string(),
        protocol: 758,
        max_players: 100,
        online_players: 3,
        sample: None,
        description: chat("A Minecraft Server"),
        favicon: None,
    }
}

fn cond(actor: Actor, ty: ConditionType, values: Vec<&str>, patterns: Vec<&str>) -> Condition {
    Condition {
        values: values.into_iter().map(|v| v.to_string()).collect(),
        values_regex: patterns
            .into_iter()
            .map(|p| CompiledRegex::new(p).expect("pattern must compile"))
            .collect(),
        conditon_type: ty,
        actor,
    }
}

#[test]
fn empty_condition_set_accepts_everything() {
    let cs = Conditions { conditions: Vec::new() };
    assert!(cs.is_valid(&resp("1.8.9")));
}

#[test]
fn exclude_version_literal_rejects_exact_match() {
    let cs = Conditions {
        conditions: vec![cond(Actor::Version, ConditionType::Exclude, vec!["1.8.9"], vec![])],
    };
    assert!(!cs.is_valid(&resp("1.8.9")));
    assert!(cs.is_valid(&resp("1.16.5")));
    assert!(cs.is_valid(&resp("")));
}

#[test]
fn include_player_name_regex_needs_a_matching_sample() {
    let cs = Conditions {
        conditions: vec![cond(Actor::PlayerName, ConditionType::Include, vec![], vec!["^Admin"])],
    };
    let mut r = resp("1.19");
    r.sample = Some(vec![CCheckPlayer { name: "Admin42".to_string(), id: "u-1".to_string() }]);
    assert!(cs.is_valid(&r));

    r.sample = Some(vec![CCheckPlayer { name: "NotAdmin".to_string(), id: "u-2".to_string() }]);
    assert!(!cs.is_valid(&r));

    r.sample = Some(Vec::new());
    assert!(!cs.is_valid(&r));

    r.sample = None;
    assert!(!cs.is_valid(&r));
}

#[test]
fn verdict_does_not_depend_on_rule_order() {
    let a = Conditions {
        conditions: vec![
            cond(Actor::Version, ConditionType::Exclude, vec!["1.8.9"], vec![]),
            cond(Actor::Description, ConditionType::Include, vec![], vec!["Minecraft"]),
        ],
    };
    let b = Conditions {
        conditions: vec![
            cond(Actor::Description, ConditionType::Include, vec![], vec!["Minecraft"]),
            cond(Actor::Version, ConditionType::Exclude, vec!["1.8.9"], vec![]),
        ],
    };
    for v in ["1.8.9", "1.16.5"] {
        assert_eq!(a.is_valid(&resp(v)), b.is_valid(&resp(v)));
    }
}

#[test]
fn protocol_matches_through_decimal_rendering() {
    let cs = Conditions {
        conditions: vec![cond(Actor::Protocol, ConditionType::Include, vec!["758"], vec![])],
    };
    assert!(cs.is_valid(&resp("1.18.2")));
    let mut r = resp("1.18.2");
    r.protocol = 757;
    assert!(!cs.is_valid(&r));
}

#[test]
fn negative_protocol_renders_with_minus_sign() {
    let cs = Conditions {
        conditions: vec![cond(Actor::Protocol, ConditionType::Include, vec!["-1"], vec![])],
    };
    let mut r = resp("weird");
    r.protocol = -1;
    assert!(cs.is_valid(&r));
}

#[test]
fn player_counts_match_through_decimal_rendering() {
    let online = Conditions {
        conditions: vec![cond(Actor::ConnectedPlayers, ConditionType::Include, vec!["3"], vec![])],
    };
    let max = Conditions {
        conditions: vec![cond(Actor::MaxPlayers, ConditionType::Exclude, vec!["100"], vec![])],
    };
    assert!(online.is_valid(&resp("1.19")));
    assert!(!max.is_valid(&resp("1.19")));
}

#[test]
fn description_matches_on_its_text() {
    let cs = Conditions {
        conditions: vec![cond(Actor::Description, ConditionType::Include, vec![], vec!["craft"])],
    };
    assert!(cs.is_valid(&resp("1.19")));
    let mut r = resp("1.19");
    r.description = chat("something else");
    assert!(!cs.is_valid(&r));
}

#[test]
fn favicon_matches_by_base64_literal_only() {
    let icon: Vec<u8> = vec![0x89, 0x50, 0x4e, 0x47];
    let encoded = base64::encode(&icon);
    let cs = Conditions {
        conditions: vec![cond(
            Actor::Favicon,
            ConditionType::Exclude,
            vec![encoded.as_str()],
            vec![],
        )],
    };
    let mut r = resp("1.19");
    r.favicon = Some(icon);
    assert!(!cs.is_valid(&r));
    r.favicon = Some(vec![1, 2, 3]);
    assert!(cs.is_valid(&r));
}

#[test]
fn absent_favicon_compares_as_empty_bytes() {
    let encoded_empty = base64::encode(b"");
    assert_eq!(encoded_empty, "");
    let cs = Conditions {
        conditions: vec![cond(Actor::Favicon, ConditionType::Exclude, vec![""], vec![])],
    };
    let r = resp("1.19");
    assert!(!cs.is_valid(&r));
}

#[test]
fn player_uuid_matches_on_ids() {
    let cs = Conditions {
        conditions: vec![cond(Actor::PlayerUuid, ConditionType::Exclude, vec!["u-7"], vec![])],
    };
    let mut r = resp("1.19");
    r.sample = Some(vec![CCheckPlayer { name: "Someone".to_string(), id: "u-7".to_string() }]);
    assert!(!cs.is_valid(&r));
    r.sample = Some(vec![CCheckPlayer { name: "Someone".to_string(), id: "u-8".to_string() }]);
    assert!(cs.is_valid(&r));
}

#[test]
fn bad_regex_is_rejected_at_compile_time() {
    assert!(CompiledRegex::new("foo(bar").is_none());
    assert!(CompiledRegex::new("^Admin").is_some());
}

#[test]
fn get_conditions_builds_exclude_then_include() {
    let built = get_conditions(
        Actor::Version,
        vec!["1.8.9".to_string()],
        vec!["1.19".to_string()],
        vec![],
        vec![CompiledRegex::new("^1\\.19").expect("pattern must compile")],
    );
    assert_eq!(built.len(), 2);
    assert!(matches!(built[0].conditon_type, ConditionType::Exclude));
    assert_eq!(built[0].values, vec!["1.8.9".to_string()]);
    assert!(matches!(built[1].conditon_type, ConditionType::Include));
    assert_eq!(built[1].values_regex.len(), 1);

    let none = get_conditions(Actor::Favicon, vec![], vec![], vec![], vec![]);
    assert_eq!(none.len(), 0);
}
