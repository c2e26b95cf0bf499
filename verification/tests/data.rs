use minecraft_json::defaults::{always_true, is_default, is_false, is_true};
use minecraft_json::error::ErrorKind;
use minecraft_json::minecraft::catalog::{Catalog, Document};
use minecraft_json::minecraft::common::{
    Either, NumberProvider, PlainValue, Ranged2, ScoreboardName, ScoreboardSelector, Vector3d,
};
use minecraft_json::minecraft::data::advancement::{Advancement, Criterion, Display, Frame, Icon, Rewards};
use minecraft_json::minecraft::data::conditions::{
    AdvancementStatus, Block, DamageSource, Distance, Entity, GameMode, LightningBolt, Location, Player, Statistic,
};
use minecraft_json::minecraft::data::meta::McMeta;
use minecraft_json::minecraft::data::pack_format;
use minecraft_json::minecraft::data::predicate::{Predicate, WhichEntity};
use minecraft_json::minecraft::text::{StringLike, TextComponent, TextComponentTags};
use minecraft_json::value::{Number, Value};

fn from_json(v: &serde_json::Value) -> Value {
    match v {
        serde_json::Value::Null => Value::Null,
        serde_json::Value::Bool(b) => Value::Bool(*b),
        serde_json::Value::Number(n) => Value::Number(if let Some(u) = n.as_u64() {
            Number::PosInt(u)
        } else if let Some(i) = n.as_i64() {
            Number::NegInt(i)
        } else {
            Number::Float(n.as_f64().unwrap().to_bits())
        }),
        serde_json::Value::String(s) => Value::String(s.clone()),
        serde_json::Value::Array(items) => Value::Array(items.iter().map(from_json).collect()),
        serde_json::Value::Object(members) => {
            Value::Object(members.iter().map(|(k, v)| (k.clone(), from_json(v))).collect())
        }
    }
}

fn to_json(v: &Value) -> serde_json::Value {
    match v {
        Value::Null => serde_json::Value::Null,
        Value::Bool(b) => serde_json::Value::Bool(*b),
        Value::Number(Number::PosInt(u)) => serde_json::Value::Number(serde_json::Number::from(*u)),
        Value::Number(Number::NegInt(i)) => serde_json::Value::Number(serde_json::Number::from(*i)),
        Value::Number(Number::Float(bits)) => {
            serde_json::Value::Number(serde_json::Number::from_f64(f64::from_bits(*bits)).unwrap())
        }
        Value::String(s) => serde_json::Value::String(s.clone()),
        Value::Array(items) => serde_json::Value::Array(items.iter().map(to_json).collect()),
        Value::Object(members) => {
            let mut map = serde_json::Map::new();
            for (k, v) in members {
                map.insert(k.clone(), to_json(v));
            }
            serde_json::Value::Object(map)
        }
    }
}

fn equiv<T: Document + PartialEq + std::fmt::Debug>(text: &str, value: T) {
    let catalog = Catalog::new().unwrap();
    let written = serde_json::to_string(&to_json(&catalog.encode(&value))).unwrap();
    assert_eq!(text, written);
    let parsed: serde_json::Value = serde_json::from_str(text).unwrap();
    assert_eq!(catalog.decode::<T>(&from_json(&parsed)), Ok(value));
}

fn equiv_pretty<T: Document + PartialEq + std::fmt::Debug>(text: &str, value: T) {
    let catalog = Catalog::new().unwrap();
    let written = serde_json::to_string_pretty(&to_json(&catalog.encode(&value))).unwrap();
    assert_eq!(text, written);
    let parsed: serde_json::Value = serde_json::from_str(text).unwrap();
    assert_eq!(catalog.decode::<T>(&from_json(&parsed)), Ok(value));
}

fn translated(key: &str) -> TextComponent {
    TextComponent::Translated {
        translate: key.to_string(),
        with: Vec::new(),
        properties: TextComponentTags::default(),
    }
}

#[test]
fn advancement_of_sleeping_in_a_bed() {
    equiv_pretty(
        r#"{
  "display": {
    "icon": {
      "item": "minecraft:red_bed"
    },
    "title": {
      "translate": "advancements.adventure.sleep_in_bed.title"
    },
    "description": {
      "translate": "advancements.adventure.sleep_in_bed.description"
    }
  },
  "parent": "minecraft:adventure/root",
  "criteria": {
    "slept_in_bed": {
      "trigger": "minecraft:slept_in_bed",
      "conditions": {}
    }
  },
  "requirements": [
    [
      "slept_in_bed"
    ]
  ]
}"#,
        Advancement {
            parent: Some("minecraft:adventure/root".to_string()),
            display: Some(Box::new(Display {
                icon: Some(Icon { item: "minecraft:red_bed".to_string(), nbt: None }),
                title: translated("advancements.adventure.sleep_in_bed.title"),
                description: translated("advancements.adventure.sleep_in_bed.description"),
                frame: Frame::default(),
                background: None,
                show_toast: true,
                announce_to_chat: true,
                hidden: false,
            })),
            criteria: vec![("slept_in_bed".to_string(), Criterion::SleptInBed { location: None, player: None })],
            requirements: vec![vec!["slept_in_bed".to_string()]],
            rewards: None,
        },
    );
}

#[test]
fn display_writes_what_differs_from_the_defaults() {
    let display = Display {
        icon: None,
        title: translated("t"),
        frame: Frame::Challenge,
        background: None,
        description: translated("d"),
        show_toast: false,
        announce_to_chat: true,
        hidden: true,
    };
    equiv(
        r#"{"title":{"translate":"t"},"frame":"challenge","description":{"translate":"d"},"show_toast":false,"hidden":true}"#,
        display,
    );
}

#[test]
fn frame_defaults_to_task() {
    assert_eq!(Frame::default(), Frame::Task);
    equiv(r#""task""#, Frame::Task);
    equiv(r#""goal""#, Frame::Goal);
}

#[test]
fn rewards_leave_out_zero_experience() {
    equiv("{}", Rewards::default());
    equiv(
        r#"{"recipes":["a"],"experience":5,"function":"f"}"#,
        Rewards { recipes: vec!["a".to_string()], loot: vec![], experience: 5, function: Some("f".to_string()) },
    );
}

#[test]
fn criterion_with_conditions() {
    let player = Either::Right(Box::new(Entity { team: Some("red".to_string()), ..Entity::default() }));
    equiv(
        r#"{"trigger":"minecraft:bee_nest_destroyed","conditions":{"block":"minecraft:bee_nest","num_bees_inside":3,"player":{"team":"red"}}}"#,
        Criterion::BeeNestDestroyed {
            block: Some("minecraft:bee_nest".to_string()),
            item: None,
            num_bees_inside: Some(3),
            player: Some(player),
        },
    );
    equiv(
        r#"{"trigger":"minecraft:bred_animals","conditions":{"child":["a","b"]}}"#,
        Criterion::BredAnimals {
            child: Some(Either::Left(vec!["a".to_string(), "b".to_string()])),
            parent: None,
            partner: None,
            player: None,
        },
    );
}

#[test]
fn criterion_with_unknown_trigger() {
    let catalog = Catalog::new().unwrap();
    let parsed: serde_json::Value =
        serde_json::from_str(r#"{"trigger":"minecraft:impossible","conditions":{}}"#).unwrap();
    let e = catalog.decode::<Criterion>(&from_json(&parsed)).unwrap_err();
    assert_eq!(
        e.kind,
        ErrorKind::UnknownVariant {
            tag: "minecraft:impossible".to_string(),
            known: vec![
                "minecraft:bee_nest_destroyed".to_string(),
                "minecraft:bred_animals".to_string(),
                "minecraft:slept_in_bed".to_string(),
            ],
        }
    );
}

#[test]
fn error_inside_a_criterion_names_the_way_to_it() {
    let catalog = Catalog::new().unwrap();
    let parsed: serde_json::Value = serde_json::from_str(
        r#"{"criteria":{"c":{"trigger":"minecraft:slept_in_bed","conditions":{"location":{"smokey":1}}}}}"#,
    )
    .unwrap();
    let e = catalog.decode::<Advancement>(&from_json(&parsed)).unwrap_err();
    assert_eq!(e.path, vec!["criteria", "c", "conditions", "location", "smokey"]);
}

#[test]
fn pack_meta() {
    equiv(
        r#"{"pack":{"description":"My pack","pack_format":7}}"#,
        McMeta::Pack {
            description: TextComponent::RawTextLike(StringLike::String("My pack".to_string())),
            pack_format: pack_format::VER_7,
        },
    );
    assert_eq!(
        (pack_format::VER_4, pack_format::VER_5, pack_format::VER_6, pack_format::VER_7),
        (4, 5, 6, 7)
    );
}

#[test]
fn ranged_values_are_exact_or_bounded() {
    let location = Location {
        light: Some(Ranged2::Exact(7)),
        position: Some(Box::new(Vector3d {
            x: Some(Ranged2::Range { min: Some(-5), max: None }),
            y: None,
            z: Some(Ranged2::Range { min: None, max: None }),
        })),
        ..Location::default()
    };
    equiv(r#"{"light":7,"position":{"x":{"min":-5},"z":{}}}"#, location);
}

#[test]
fn distance_flattens_its_components() {
    let distance = Distance {
        absolute: Some(Ranged2::Range { min: Some(1), max: Some(2) }),
        horizontal: None,
        components: Vector3d { x: Some(Ranged2::Exact(3)), y: None, z: None },
    };
    equiv(r#"{"absolute":{"min":1,"max":2},"x":3}"#, distance);
}

#[test]
fn lightning_bolt_flattens_an_entity() {
    let bolt = LightningBolt {
        blocks_set_on_fire: Some(2),
        entity_struck: Some(Box::new(Entity { nbt: Some("{}".to_string()), ..Entity::default() })),
        lightning_entity: Entity { team: Some("t".to_string()), kind: Some("k".to_string()), ..Entity::default() },
    };
    equiv(r#"{"blocks_set_on_fire":2,"entity_struck":{"nbt":"{}"},"team":"t","type":"k"}"#, bolt);
}

#[test]
fn block_states_hold_plain_values() {
    let block = Block {
        blocks: vec!["minecraft:oak_log".to_string()],
        tag: None,
        nbt: None,
        state: vec![
            ("axis".to_string(), PlainValue::String("y".to_string())),
            ("lit".to_string(), PlainValue::Boolean(false)),
            ("age".to_string(), PlainValue::Integer(Ranged2::Range { min: Some(1), max: Some(3) })),
            ("level".to_string(), PlainValue::Integer(Ranged2::Exact(2))),
        ],
    };
    equiv(
        r#"{"blocks":["minecraft:oak_log"],"state":{"axis":"y","lit":false,"age":{"min":1,"max":3},"level":2}}"#,
        block,
    );
}

#[test]
fn player_conditions() {
    let player = Player {
        looking_at: None,
        advancements: vec![
            ("a".to_string(), AdvancementStatus::Advancement(true)),
            ("b".to_string(), AdvancementStatus::Criteria(vec![("c".to_string(), false)])),
        ],
        gamemode: Some(GameMode::Creative),
        level: None,
        recipes: vec![("r".to_string(), true)],
        stats: vec![Statistic {
            kind: "minecraft:custom".to_string(),
            stat: "minecraft:jump".to_string(),
            value: Ranged2::Exact(1),
        }],
    };
    equiv(
        r#"{"advancements":{"a":true,"b":{"c":false}},"gamemode":"Creative","recipes":{"r":true},"stats":[{"type":"minecraft:custom","stat":"minecraft:jump","value":1}]}"#,
        player,
    );
}

#[test]
fn predicates_are_told_apart_by_their_condition() {
    equiv(r#"{"condition":"survives_explosion"}"#, Predicate::SurvivesExplosion);
    equiv(r#"{"condition":"killed_by_player"}"#, Predicate::KilledByPlayer { inverse: false });
    equiv(r#"{"condition":"killed_by_player","inverse":true}"#, Predicate::KilledByPlayer { inverse: true });
    equiv(
        r#"{"condition":"inverted","term":{"condition":"alternative","terms":[{"condition":"reference","name":"n"}]}}"#,
        Predicate::Inverted {
            term: Box::new(Predicate::Alternative { terms: vec![Predicate::Reference { name: "n".to_string() }] }),
        },
    );
    equiv(
        r#"{"condition":"location_check","offsetX":1,"offsetZ":-1,"predicate":{"biome":"minecraft:plains"}}"#,
        Predicate::LocationCheck {
            offset_x: Some(1),
            offset_y: None,
            offset_z: Some(-1),
            predicate: Box::new(Location { biome: Some("minecraft:plains".to_string()), ..Location::default() }),
        },
    );
    equiv(
        r#"{"condition":"entity_scores","entity":"killer_player","scores":{"kills":{"min":1}}}"#,
        Predicate::EntityScores {
            entity: WhichEntity::KillerPlayer,
            scores: vec![("kills".to_string(), Ranged2::Range { min: Some(1), max: None })],
        },
    );
    equiv(
        r#"{"condition":"table_bonus","enchantment":35,"chances":[0.5,1]}"#,
        Predicate::TableBonus {
            enchantment: 35,
            chances: vec![Number::Float(0.5f64.to_bits()), Number::PosInt(1)],
        },
    );
    equiv(
        r#"{"condition":"damage_source_properties","predicate":{"is_fire":true}}"#,
        Predicate::DamageSourceProperties {
            predicate: DamageSource { is_fire: Some(true), ..DamageSource::default() },
        },
    );
}

#[test]
fn predicate_without_condition_or_with_an_unknown_one() {
    let catalog = Catalog::new().unwrap();
    let parsed: serde_json::Value = serde_json::from_str(r#"{"term":{}}"#).unwrap();
    assert_eq!(catalog.decode::<Predicate>(&from_json(&parsed)).unwrap_err().kind, ErrorKind::MissingTag);
    let parsed: serde_json::Value = serde_json::from_str(r#"{"condition":"never"}"#).unwrap();
    match catalog.decode::<Predicate>(&from_json(&parsed)).unwrap_err().kind {
        ErrorKind::UnknownVariant { tag, known } => {
            assert_eq!(tag, "never");
            assert_eq!(known.len(), 17);
        }
        other => panic!("{:?}", other),
    }
}

#[test]
fn number_providers_are_numbers_or_objects() {
    equiv(
        r#"{"condition":"value_check","value":3,"range":{"min":{"type":"constant","value":1},"max":5}}"#,
        Predicate::ValueCheck {
            value: Either::Left(3),
            range: Ranged2::Range {
                min: Some(Either::Right(Box::new(NumberProvider::Constant { value: 1 }))),
                max: Some(Either::Left(5)),
            },
        },
    );
    equiv(
        r#"{"condition":"time_check","value":{"min":{"type":"uniform","min":0,"max":{"type":"binomial","min":1,"max":0.5}}},"period":24000}"#,
        Predicate::TimeCheck {
            value: Ranged2::Range {
                min: Some(Either::Right(Box::new(NumberProvider::Uniform {
                    min: Box::new(Either::Left(0)),
                    max: Box::new(Either::Right(Box::new(NumberProvider::Binomial {
                        min: Box::new(Either::Left(1)),
                        max: Box::new(Either::Left(Number::Float(0.5f64.to_bits()))),
                    }))),
                }))),
                max: None,
            },
            period: Some(24000),
        },
    );
    equiv(
        r#"{"condition":"value_check","value":{"type":"score","target":"this","score":"s","scale":2},"range":1}"#,
        Predicate::ValueCheck {
            value: Either::Right(Box::new(NumberProvider::Score {
                target: Either::Left(ScoreboardName::This),
                score: "s".to_string(),
                scale: Some(Number::PosInt(2)),
            })),
            range: Ranged2::Exact(Either::Left(1)),
        },
    );
    equiv(
        r#"{"condition":"value_check","value":{"type":"score","target":{"type":"fixed","name":"n"},"score":"s"},"range":1}"#,
        Predicate::ValueCheck {
            value: Either::Right(Box::new(NumberProvider::Score {
                target: Either::Right(ScoreboardSelector::Fixed { name: "n".to_string() }),
                score: "s".to_string(),
                scale: None,
            })),
            range: Ranged2::Exact(Either::Left(1)),
        },
    );
}

#[test]
fn omission_tests_of_the_defaults() {
    assert!(is_false(&false));
    assert!(!is_false(&true));
    assert!(is_true(&true));
    assert!(!is_true(&false));
    assert!(always_true());
    assert!(is_default(&0i64));
    assert!(!is_default(&5i64));
    assert!(is_default(&false));
    assert!(is_default(&Frame::Task));
    assert!(!is_default(&Frame::Goal));
    assert!(is_default(&Rewards::default()));
}
