use minecraft_json::defaults::entity_names_separator;
use minecraft_json::error::{DecodeError, ErrorKind};
use minecraft_json::minecraft::catalog::{Catalog, Document};
use minecraft_json::minecraft::text::{
    ClickEvent, Colour, ColourName, Entity, Formatting, HexColour, HoverEvent, Interactivity, Item, LegacyEntity,
    Score, StringLike, TextComponent, TextComponentTags, ValueOrContents,
};
use minecraft_json::value::{Number, Value};

fn from_json(v: &serde_json::Value) -> Value {
    match v {
        serde_json::Value::Null => Value::Null,
        serde_json::Value::Bool(b) => Value::Bool(*b),
        serde_json::Value::Number(n) => Value::Number(if let Some(u) = n.as_u64() {
            Number::PosInt(u)
        } else if let Some(i) = n.as_i64() {
            Number::NegInt(i)
        } else {
            Number::Float(n.as_f64().unwrap().to_bits())
        }),
        serde_json::Value::String(s) => Value::String(s.clone()),
        serde_json::Value::Array(items) => Value::Array(items.iter().map(from_json).collect()),
        serde_json::Value::Object(members) => {
            Value::Object(members.iter().map(|(k, v)| (k.clone(), from_json(v))).collect())
        }
    }
}

fn to_json(v: &Value) -> serde_json::Value {
    match v {
        Value::Null => serde_json::Value::Null,
        Value::Bool(b) => serde_json::Value::Bool(*b),
        Value::Number(Number::PosInt(u)) => serde_json::Value::Number(serde_json::Number::from(*u)),
        Value::Number(Number::NegInt(i)) => serde_json::Value::Number(serde_json::Number::from(*i)),
        Value::Number(Number::Float(bits)) => {
            serde_json::Value::Number(serde_json::Number::from_f64(f64::from_bits(*bits)).unwrap())
        }
        Value::String(s) => serde_json::Value::String(s.clone()),
        Value::Array(items) => serde_json::Value::Array(items.iter().map(to_json).collect()),
        Value::Object(members) => {
            let mut map = serde_json::Map::new();
            for (k, v) in members {
                map.insert(k.clone(), to_json(v));
            }
            serde_json::Value::Object(map)
        }
    }
}

/// Checks that the text and the value stand for each other.
fn equiv<T: Document + PartialEq + std::fmt::Debug>(text: &str, value: T) {
    let catalog = Catalog::new().unwrap();
    let written = serde_json::to_string(&to_json(&catalog.encode(&value))).unwrap();
    assert_eq!(text, written);
    let parsed: serde_json::Value = serde_json::from_str(text).unwrap();
    assert_eq!(catalog.decode::<T>(&from_json(&parsed)), Ok(value));
}

fn read<T: Document>(text: &str) -> Result<T, DecodeError> {
    let catalog = Catalog::new().unwrap();
    let parsed: serde_json::Value = serde_json::from_str(text).unwrap();
    catalog.decode::<T>(&from_json(&parsed))
}

fn plain(text: &str) -> TextComponent {
    TextComponent::Text { text: StringLike::String(text.to_string()), properties: TextComponentTags::default() }
}

#[test]
fn catalog_is_well_defined() {
    assert!(Catalog::new().is_ok());
}

#[test]
fn colour_by_name_or_by_channels() {
    equiv(r#""dark_purple""#, Colour::Named(ColourName::DarkPurple));
    equiv(r##""#66CCFF""##, Colour::Hex(HexColour { red: 0x66, green: 0xCC, blue: 0xFF }));
}

#[test]
fn colour_names_are_snake_case() {
    equiv(r#""dark_purple""#, ColourName::DarkPurple);
    equiv(r#""reset""#, ColourName::Reset);
    equiv(r#""black""#, ColourName::Black);
    equiv(r#""light_purple""#, ColourName::LightPurple);
}

#[test]
fn colour_reads_lower_case_digits() {
    assert_eq!(
        read::<Colour>(r##""#66ccff""##),
        Ok(Colour::Hex(HexColour { red: 0x66, green: 0xCC, blue: 0xFF }))
    );
}

#[test]
fn colour_that_is_neither_matches_no_variant() {
    let e = read::<Colour>(r##""#6CF""##).unwrap_err();
    assert_eq!(e.kind, ErrorKind::NoMatchingVariant { tried: 2 });
    let e = read::<Colour>(r#""purple""#).unwrap_err();
    assert_eq!(e.kind, ErrorKind::NoMatchingVariant { tried: 2 });
}

#[test]
fn unknown_colour_name() {
    let e = read::<ColourName>(r#""purple""#).unwrap_err();
    match e.kind {
        ErrorKind::UnknownVariant { tag, known } => {
            assert_eq!(tag, "purple");
            assert_eq!(known.len(), 17);
            assert_eq!(known[0], "black");
            assert_eq!(known[16], "reset");
        }
        other => panic!("{:?}", other),
    }
}

#[test]
fn string_like_keeps_its_kind() {
    equiv(r#""some text""#, StringLike::String("some text".to_string()));
    equiv("42", StringLike::Number(Number::PosInt(42)));
    equiv("-7", StringLike::Number(Number::NegInt(-7)));
    equiv("1.5", StringLike::Number(Number::Float(1.5f64.to_bits())));
    equiv("true", StringLike::Boolean(true));
    equiv(r#""true""#, StringLike::String("true".to_string()));
}

#[test]
fn hover_event_with_contents() {
    equiv(
        r#"{"action":"show_text","contents":{"text":"hello"}}"#,
        HoverEvent::ShowText(ValueOrContents::Contents(Box::new(plain("hello")))),
    );
}

#[test]
fn hover_event_with_deprecated_value() {
    equiv(
        r#"{"action":"show_text","value":"hello"}"#,
        HoverEvent::ShowText(ValueOrContents::Value(Box::new(TextComponent::RawTextLike(StringLike::String(
            "hello".to_string(),
        ))))),
    );
    equiv(
        r#"{"action":"show_item","value":"{id:\"minecraft:stone\"}"}"#,
        HoverEvent::ShowItem(ValueOrContents::Value("{id:\"minecraft:stone\"}".to_string())),
    );
}

#[test]
fn hover_event_shows_items_and_entities() {
    equiv(
        r#"{"action":"show_item","contents":{"id":"minecraft:stone","count":3}}"#,
        HoverEvent::ShowItem(ValueOrContents::Contents(Item {
            id: "minecraft:stone".to_string(),
            count: Some(Number::PosInt(3)),
            tag: None,
        })),
    );
    equiv(
        r#"{"action":"show_entity","contents":{"name":"Bob","type":"minecraft:pig","id":"0-0-0-0-0"}}"#,
        HoverEvent::ShowEntity(ValueOrContents::Contents(Entity {
            name: Some(Box::new(TextComponent::RawTextLike(StringLike::String("Bob".to_string())))),
            kind: "minecraft:pig".to_string(),
            id: "0-0-0-0-0".to_string(),
        })),
    );
    equiv(
        r#"{"action":"show_entity","value":{"type":"pig"}}"#,
        HoverEvent::ShowEntity(ValueOrContents::Value(LegacyEntity {
            name: None,
            kind: Some("pig".to_string()),
            id: None,
        })),
    );
}

#[test]
fn hover_event_with_unknown_action() {
    let e = read::<HoverEvent>(r#"{"action":"show_nothing","contents":1}"#).unwrap_err();
    assert_eq!(
        e.kind,
        ErrorKind::UnknownVariant {
            tag: "show_nothing".to_string(),
            known: vec!["show_text".to_string(), "show_item".to_string(), "show_entity".to_string()],
        }
    );
    let e = read::<HoverEvent>(r#"{"contents":1}"#).unwrap_err();
    assert_eq!(e.kind, ErrorKind::MissingTag);
}

#[test]
fn text_component_in_all_plain_forms() {
    equiv(r#""A""#, TextComponent::RawTextLike(StringLike::String("A".to_string())));
    equiv("true", TextComponent::RawTextLike(StringLike::Boolean(true)));
    equiv("3", TextComponent::RawTextLike(StringLike::Number(Number::PosInt(3))));
    equiv(
        r#"["A","B"]"#,
        TextComponent::RawTextList(vec![
            TextComponent::RawTextLike(StringLike::String("A".to_string())),
            TextComponent::RawTextLike(StringLike::String("B".to_string())),
        ]),
    );
    equiv(r#"{"text":"A"}"#, plain("A"));
}

#[test]
fn text_component_flattens_its_properties() {
    let value = TextComponent::Text {
        text: StringLike::String("A".to_string()),
        properties: TextComponentTags {
            extra: vec![plain("B"), TextComponent::RawTextLike(StringLike::String("C".to_string()))],
            formatting: Formatting {
                color: Some(Colour::Named(ColourName::Red)),
                bold: Some(true),
                italic: Some(false),
                ..Formatting::default()
            },
            interactivity: Interactivity { insertion: Some("ins".to_string()), ..Interactivity::default() },
        },
    };
    equiv(
        r#"{"text":"A","extra":[{"text":"B"},"C"],"color":"red","bold":true,"italic":false,"insertion":"ins"}"#,
        value,
    );
}

#[test]
fn text_component_ignores_unknown_members() {
    assert_eq!(read::<TextComponent>(r#"{"unknown":[1,2],"text":"A","more":null}"#), Ok(plain("A")));
}

#[test]
fn text_component_variants_are_told_apart_by_their_members() {
    equiv(
        r#"{"translate":"chat.type.text","with":["a",{"text":"b"}]}"#,
        TextComponent::Translated {
            translate: "chat.type.text".to_string(),
            with: vec![TextComponent::RawTextLike(StringLike::String("a".to_string())), plain("b")],
            properties: TextComponentTags::default(),
        },
    );
    equiv(
        r#"{"score":{"name":"*","objective":"obj","value":"3"}}"#,
        TextComponent::ScoreBoard {
            score: Score { name: "*".to_string(), objective: "obj".to_string(), value: "3".to_string() },
            properties: TextComponentTags::default(),
        },
    );
    equiv(
        r#"{"keybind":"key.inventory","underlined":true}"#,
        TextComponent::KeyBind {
            keybind: "key.inventory".to_string(),
            properties: TextComponentTags {
                formatting: Formatting { underlined: Some(true), ..Formatting::default() },
                ..TextComponentTags::default()
            },
        },
    );
}

#[test]
fn text_wins_over_later_variants_that_would_accept_too() {
    let doc = r#"{"text":"A","translate":"t","keybind":"k"}"#;
    assert_eq!(read::<TextComponent>(doc), Ok(plain("A")));
}

#[test]
fn entity_names_have_a_gray_comma_as_default_separator() {
    let read_back = read::<TextComponent>(r#"{"selector":"@a"}"#).unwrap();
    let want = TextComponent::EntityNames {
        selector: "@a".to_string(),
        separator: entity_names_separator(),
        properties: TextComponentTags::default(),
    };
    assert_eq!(read_back, want);
    equiv(r#"{"selector":"@a","separator":{"text":", ","color":"gray"}}"#, want);
    let separator = entity_names_separator();
    match *separator {
        TextComponent::Text { text, properties } => {
            assert_eq!(text, StringLike::String(", ".to_string()));
            assert_eq!(properties.formatting.color, Some(Colour::Named(ColourName::Gray)));
            assert_eq!(properties.extra, vec![]);
        }
        other => panic!("{:?}", other),
    }
}

#[test]
fn nbt_value_writes_null_for_what_is_not_there() {
    let value = TextComponent::NbtValue {
        nbt: "Health".to_string(),
        interpret: false,
        separator: Box::new(plain(", ")),
        block: None,
        entity: Some("@s".to_string()),
        storage: None,
        properties: TextComponentTags::default(),
    };
    equiv(
        r#"{"nbt":"Health","separator":{"text":", "},"block":null,"entity":"@s","storage":null}"#,
        value,
    );
    let read_back = read::<TextComponent>(r#"{"nbt":"x","interpret":true,"separator":"-"}"#).unwrap();
    assert_eq!(
        read_back,
        TextComponent::NbtValue {
            nbt: "x".to_string(),
            interpret: true,
            separator: Box::new(TextComponent::RawTextLike(StringLike::String("-".to_string()))),
            block: None,
            entity: None,
            storage: None,
            properties: TextComponentTags::default(),
        }
    );
}

#[test]
fn nbt_value_needs_its_separator() {
    let e = read::<TextComponent>(r#"{"nbt":"x"}"#).unwrap_err();
    assert_eq!(e.kind, ErrorKind::NoMatchingVariant { tried: 8 });
}

#[test]
fn click_event_defaults_to_nothing() {
    equiv("{}", ClickEvent::default());
    equiv("{}", Interactivity::default());
    equiv("{}", Formatting::default());
    equiv("{}", TextComponentTags::default());
}

#[test]
fn interactivity_uses_camel_case() {
    let value = Interactivity {
        insertion: None,
        click_event: Some(ClickEvent::default()),
        hover_event: Some(HoverEvent::ShowText(ValueOrContents::Contents(Box::new(plain("tip"))))),
    };
    equiv(r#"{"clickEvent":{},"hoverEvent":{"action":"show_text","contents":{"text":"tip"}}}"#, value);
}

#[test]
fn nested_components_round_trip() {
    let mut value = plain("0");
    for i in 1..50 {
        value = TextComponent::Text {
            text: StringLike::Number(Number::PosInt(i)),
            properties: TextComponentTags { extra: vec![value, plain("x")], ..TextComponentTags::default() },
        };
    }
    let catalog = Catalog::new().unwrap();
    let doc = catalog.encode(&value);
    assert_eq!(catalog.decode::<TextComponent>(&doc), Ok(value));
}

#[test]
fn required_members_of_a_score_are_named_when_missing() {
    let e = read::<Score>(r#"{"name":"*","value":"3"}"#).unwrap_err();
    assert_eq!(e.kind, ErrorKind::MissingRequiredField { name: "objective".to_string() });
    assert_eq!(e.path, Vec::<String>::new());
}

#[test]
fn typed_values_have_the_generic_form_of_their_documents() {
    let value = Colour::Named(ColourName::Gray);
    let x = value.to_instance();
    assert_eq!(Colour::from_instance(&x), Some(Colour::Named(ColourName::Gray)));
    assert_eq!(Colour::from_instance(&ColourName::Gray.to_instance()), None);
}
