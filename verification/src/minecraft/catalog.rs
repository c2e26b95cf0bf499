//! The table of definitions of all record shapes of this crate, and the
//! typed codec over it.

use crate::decode::decode_spec;
use crate::encode::{conforms, encode_spec, legal};
use crate::error::{DecodeError, ErrorKind, Failure, SchemaDefinitionError};
use crate::instance::{Datum, Instance};
use crate::laws::{lemma_decode_conforms, lemma_round_trip};
use crate::schema::{shape_ok, shapes, table_ok, Node, Schema, Shape};
use crate::value::{Json, Value};
use vstd::prelude::*;

verus! {

pub const SCOREBOARD_NAME: usize = 0;
pub const SCOREBOARD_SELECTOR: usize = 1;
pub const PLAIN_VALUE: usize = 2;
pub const COLOUR_NAME: usize = 3;
pub const COLOUR: usize = 4;
pub const FORMATTING: usize = 5;
pub const CLICK_EVENT_ACTION: usize = 6;
pub const CLICK_EVENT: usize = 7;
pub const SHOWN_ITEM: usize = 8;
pub const LEGACY_ENTITY: usize = 9;
pub const SHOWN_ENTITY: usize = 10;
pub const HOVER_EVENT: usize = 11;
pub const INTERACTIVITY: usize = 12;
pub const TEXT_COMPONENT_TAGS: usize = 13;
pub const SCORE: usize = 14;
pub const STRING_LIKE: usize = 15;
pub const TEXT_COMPONENT: usize = 16;
pub const ENCHANTMENT: usize = 17;
pub const ITEM: usize = 18;
pub const BLOCK: usize = 19;
pub const FLUID: usize = 20;
pub const LOCATION: usize = 21;
pub const DISTANCE: usize = 22;
pub const EFFECT: usize = 23;
pub const EQUIPMENT: usize = 24;
pub const ENTITY_FLAGS: usize = 25;
pub const ADVANCEMENT_STATUS: usize = 26;
pub const GAME_MODE: usize = 27;
pub const STATISTIC: usize = 28;
pub const ENTITY: usize = 29;
pub const LIGHTNING_BOLT: usize = 30;
pub const PLAYER: usize = 31;
pub const DAMAGE_SOURCE: usize = 32;
pub const ICON: usize = 33;
pub const FRAME: usize = 34;
pub const DISPLAY: usize = 35;
pub const CRITERION: usize = 36;
pub const REWARDS: usize = 37;
pub const ADVANCEMENT: usize = 38;
pub const MC_META: usize = 39;
pub const WHICH_ENTITY: usize = 40;
pub const PREDICATE: usize = 41;
pub const INT_PROVIDER: usize = 42;
pub const NUMBER_PROVIDER: usize = 43;

/// The definitions, each at the place that its constant names.
pub closed spec fn catalog() -> Seq<Shape> {
    seq![
        crate::minecraft::common::ScoreboardName::def_shape(),
        crate::minecraft::common::ScoreboardSelector::def_shape(),
        crate::minecraft::common::PlainValue::def_shape(),
        crate::minecraft::text::ColourName::def_shape(),
        crate::minecraft::text::Colour::def_shape(),
        crate::minecraft::text::Formatting::def_shape(),
        crate::minecraft::text::ClickEventAction::def_shape(),
        crate::minecraft::text::ClickEvent::def_shape(),
        crate::minecraft::text::Item::def_shape(),
        crate::minecraft::text::LegacyEntity::def_shape(),
        crate::minecraft::text::Entity::def_shape(),
        crate::minecraft::text::HoverEvent::def_shape(),
        crate::minecraft::text::Interactivity::def_shape(),
        crate::minecraft::text::TextComponentTags::def_shape(),
        crate::minecraft::text::Score::def_shape(),
        crate::minecraft::text::StringLike::def_shape(),
        crate::minecraft::text::TextComponent::def_shape(),
        crate::minecraft::data::conditions::Enchantment::def_shape(),
        crate::minecraft::data::conditions::Item::def_shape(),
        crate::minecraft::data::conditions::Block::def_shape(),
        crate::minecraft::data::conditions::Fluid::def_shape(),
        crate::minecraft::data::conditions::Location::def_shape(),
        crate::minecraft::data::conditions::Distance::def_shape(),
        crate::minecraft::data::conditions::Effect::def_shape(),
        crate::minecraft::data::conditions::Equipment::def_shape(),
        crate::minecraft::data::conditions::EntityFlags::def_shape(),
        crate::minecraft::data::conditions::AdvancementStatus::def_shape(),
        crate::minecraft::data::conditions::GameMode::def_shape(),
        crate::minecraft::data::conditions::Statistic::def_shape(),
        crate::minecraft::data::conditions::Entity::def_shape(),
        crate::minecraft::data::conditions::LightningBolt::def_shape(),
        crate::minecraft::data::conditions::Player::def_shape(),
        crate::minecraft::data::conditions::DamageSource::def_shape(),
        crate::minecraft::data::advancement::Icon::def_shape(),
        crate::minecraft::data::advancement::Frame::def_shape(),
        crate::minecraft::data::advancement::Display::def_shape(),
        crate::minecraft::data::advancement::Criterion::def_shape(),
        crate::minecraft::data::advancement::Rewards::def_shape(),
        crate::minecraft::data::advancement::Advancement::def_shape(),
        crate::minecraft::data::meta::McMeta::def_shape(),
        crate::minecraft::data::predicate::WhichEntity::def_shape(),
        crate::minecraft::data::predicate::Predicate::def_shape(),
        crate::minecraft::common::int_provider_def_shape(),
        crate::minecraft::common::number_provider_def_shape(),
    ]
}

/// What stands at each place of the catalog.
pub proof fn lemma_catalog()
    ensures
        catalog().len() == 44,
        catalog()[SCOREBOARD_NAME as int] == crate::minecraft::common::ScoreboardName::def_shape(),
        catalog()[SCOREBOARD_SELECTOR as int] == crate::minecraft::common::ScoreboardSelector::def_shape(),
        catalog()[PLAIN_VALUE as int] == crate::minecraft::common::PlainValue::def_shape(),
        catalog()[COLOUR_NAME as int] == crate::minecraft::text::ColourName::def_shape(),
        catalog()[COLOUR as int] == crate::minecraft::text::Colour::def_shape(),
        catalog()[FORMATTING as int] == crate::minecraft::text::Formatting::def_shape(),
        catalog()[CLICK_EVENT_ACTION as int] == crate::minecraft::text::ClickEventAction::def_shape(),
        catalog()[CLICK_EVENT as int] == crate::minecraft::text::ClickEvent::def_shape(),
        catalog()[SHOWN_ITEM as int] == crate::minecraft::text::Item::def_shape(),
        catalog()[LEGACY_ENTITY as int] == crate::minecraft::text::LegacyEntity::def_shape(),
        catalog()[SHOWN_ENTITY as int] == crate::minecraft::text::Entity::def_shape(),
        catalog()[HOVER_EVENT as int] == crate::minecraft::text::HoverEvent::def_shape(),
        catalog()[INTERACTIVITY as int] == crate::minecraft::text::Interactivity::def_shape(),
        catalog()[TEXT_COMPONENT_TAGS as int] == crate::minecraft::text::TextComponentTags::def_shape(),
        catalog()[SCORE as int] == crate::minecraft::text::Score::def_shape(),
        catalog()[STRING_LIKE as int] == crate::minecraft::text::StringLike::def_shape(),
        catalog()[TEXT_COMPONENT as int] == crate::minecraft::text::TextComponent::def_shape(),
        catalog()[ENCHANTMENT as int] == crate::minecraft::data::conditions::Enchantment::def_shape(),
        catalog()[ITEM as int] == crate::minecraft::data::conditions::Item::def_shape(),
        catalog()[BLOCK as int] == crate::minecraft::data::conditions::Block::def_shape(),
        catalog()[FLUID as int] == crate::minecraft::data::conditions::Fluid::def_shape(),
        catalog()[LOCATION as int] == crate::minecraft::data::conditions::Location::def_shape(),
        catalog()[DISTANCE as int] == crate::minecraft::data::conditions::Distance::def_shape(),
        catalog()[EFFECT as int] == crate::minecraft::data::conditions::Effect::def_shape(),
        catalog()[EQUIPMENT as int] == crate::minecraft::data::conditions::Equipment::def_shape(),
        catalog()[ENTITY_FLAGS as int] == crate::minecraft::data::conditions::EntityFlags::def_shape(),
        catalog()[ADVANCEMENT_STATUS as int] == crate::minecraft::data::conditions::AdvancementStatus::def_shape(),
        catalog()[GAME_MODE as int] == crate::minecraft::data::conditions::GameMode::def_shape(),
        catalog()[STATISTIC as int] == crate::minecraft::data::conditions::Statistic::def_shape(),
        catalog()[ENTITY as int] == crate::minecraft::data::conditions::Entity::def_shape(),
        catalog()[LIGHTNING_BOLT as int] == crate::minecraft::data::conditions::LightningBolt::def_shape(),
        catalog()[PLAYER as int] == crate::minecraft::data::conditions::Player::def_shape(),
        catalog()[DAMAGE_SOURCE as int] == crate::minecraft::data::conditions::DamageSource::def_shape(),
        catalog()[ICON as int] == crate::minecraft::data::advancement::Icon::def_shape(),
        catalog()[FRAME as int] == crate::minecraft::data::advancement::Frame::def_shape(),
        catalog()[DISPLAY as int] == crate::minecraft::data::advancement::Display::def_shape(),
        catalog()[CRITERION as int] == crate::minecraft::data::advancement::Criterion::def_shape(),
        catalog()[REWARDS as int] == crate::minecraft::data::advancement::Rewards::def_shape(),
        catalog()[ADVANCEMENT as int] == crate::minecraft::data::advancement::Advancement::def_shape(),
        catalog()[MC_META as int] == crate::minecraft::data::meta::McMeta::def_shape(),
        catalog()[WHICH_ENTITY as int] == crate::minecraft::data::predicate::WhichEntity::def_shape(),
        catalog()[PREDICATE as int] == crate::minecraft::data::predicate::Predicate::def_shape(),
        catalog()[INT_PROVIDER as int] == crate::minecraft::common::int_provider_def_shape(),
        catalog()[NUMBER_PROVIDER as int] == crate::minecraft::common::number_provider_def_shape(),
{
}

/// The nodes of the definitions of the catalog.
pub fn catalog_nodes() -> (defs: Vec<Node>)
    ensures
        shapes(defs@) == catalog(),
{
    let mut defs: Vec<Node> = Vec::new();
    defs.push(crate::minecraft::common::ScoreboardName::def_node());
    defs.push(crate::minecraft::common::ScoreboardSelector::def_node());
    defs.push(crate::minecraft::common::PlainValue::def_node());
    defs.push(crate::minecraft::text::ColourName::def_node());
    defs.push(crate::minecraft::text::Colour::def_node());
    defs.push(crate::minecraft::text::Formatting::def_node());
    defs.push(crate::minecraft::text::ClickEventAction::def_node());
    defs.push(crate::minecraft::text::ClickEvent::def_node());
    defs.push(crate::minecraft::text::Item::def_node());
    defs.push(crate::minecraft::text::LegacyEntity::def_node());
    defs.push(crate::minecraft::text::Entity::def_node());
    defs.push(crate::minecraft::text::HoverEvent::def_node());
    defs.push(crate::minecraft::text::Interactivity::def_node());
    defs.push(crate::minecraft::text::TextComponentTags::def_node());
    defs.push(crate::minecraft::text::Score::def_node());
    defs.push(crate::minecraft::text::StringLike::def_node());
    defs.push(crate::minecraft::text::TextComponent::def_node());
    defs.push(crate::minecraft::data::conditions::Enchantment::def_node());
    defs.push(crate::minecraft::data::conditions::Item::def_node());
    defs.push(crate::minecraft::data::conditions::Block::def_node());
    defs.push(crate::minecraft::data::conditions::Fluid::def_node());
    defs.push(crate::minecraft::data::conditions::Location::def_node());
    defs.push(crate::minecraft::data::conditions::Distance::def_node());
    defs.push(crate::minecraft::data::conditions::Effect::def_node());
    defs.push(crate::minecraft::data::conditions::Equipment::def_node());
    defs.push(crate::minecraft::data::conditions::EntityFlags::def_node());
    defs.push(crate::minecraft::data::conditions::AdvancementStatus::def_node());
    defs.push(crate::minecraft::data::conditions::GameMode::def_node());
    defs.push(crate::minecraft::data::conditions::Statistic::def_node());
    defs.push(crate::minecraft::data::conditions::Entity::def_node());
    defs.push(crate::minecraft::data::conditions::LightningBolt::def_node());
    defs.push(crate::minecraft::data::conditions::Player::def_node());
    defs.push(crate::minecraft::data::conditions::DamageSource::def_node());
    defs.push(crate::minecraft::data::advancement::Icon::def_node());
    defs.push(crate::minecraft::data::advancement::Frame::def_node());
    defs.push(crate::minecraft::data::advancement::Display::def_node());
    defs.push(crate::minecraft::data::advancement::Criterion::def_node());
    defs.push(crate::minecraft::data::advancement::Rewards::def_node());
    defs.push(crate::minecraft::data::advancement::Advancement::def_node());
    defs.push(crate::minecraft::data::meta::McMeta::def_node());
    defs.push(crate::minecraft::data::predicate::WhichEntity::def_node());
    defs.push(crate::minecraft::data::predicate::Predicate::def_node());
    defs.push(crate::minecraft::common::int_provider_def_node());
    defs.push(crate::minecraft::common::number_provider_def_node());
    assert(shapes(defs@) =~= catalog());
    defs
}

/// A type with a definition in the catalog: its values can be written as
/// documents and read from them.
pub trait Document: Sized {
    /// The model of this value: what it is in generic form.
    spec fn model(&self) -> Datum;

    /// The place of the type's definition in the catalog.
    spec fn index() -> nat;

    /// The place of the type's definition in the catalog.
    fn place() -> (k: usize)
        ensures
            k == Self::index(),
            k < catalog().len(),
    ;

    /// This value in generic form.
    fn to_generic(&self) -> (x: Instance)
        ensures
            x@ == self.model(),
    ;

    /// The value that an instance stands for. Each value of the type's shape
    /// stands for one.
    fn from_generic(x: &Instance) -> (r: Option<Self>)
        ensures
            r matches Some(t) ==> t.model() == x@,
            conforms(catalog(), catalog().len(), Shape::Ref(Self::index()), x@) ==> r is Some,
    ;

    /// Every value of the type is a value of its shape.
    proof fn lemma_model_conforms(&self)
        ensures
            conforms(catalog(), catalog().len(), Shape::Ref(Self::index()), self.model()),
    ;

    /// Every value of the type can be written and read back as itself.
    proof fn lemma_model_legal(&self)
        ensures
            legal(catalog(), catalog().len(), Shape::Ref(Self::index()), self.model()),
    ;
}

impl Document for crate::minecraft::common::ScoreboardName {
    open spec fn model(&self) -> Datum {
        self.datum()
    }

    open spec fn index() -> nat {
        SCOREBOARD_NAME as nat
    }

    fn place() -> (k: usize) {
        proof {
            lemma_catalog();
        }
        SCOREBOARD_NAME
    }

    fn to_generic(&self) -> (x: Instance) {
        self.to_instance()
    }

    fn from_generic(x: &Instance) -> (r: Option<Self>) {
        proof {
            if conforms(catalog(), catalog().len(), Shape::Ref(Self::index()), x@) {
                crate::minecraft::common::ScoreboardName::lemma_fits(x@, catalog().len());
            }
        }
        crate::minecraft::common::ScoreboardName::from_instance(x)
    }

    proof fn lemma_model_conforms(&self) {
        self.lemma_conforms(catalog().len());
    }

    proof fn lemma_model_legal(&self) {
        self.lemma_legal(catalog().len());
    }
}

impl Document for crate::minecraft::common::ScoreboardSelector {
    open spec fn model(&self) -> Datum {
        self.datum()
    }

    open spec fn index() -> nat {
        SCOREBOARD_SELECTOR as nat
    }

    fn place() -> (k: usize) {
        proof {
            lemma_catalog();
        }
        SCOREBOARD_SELECTOR
    }

    fn to_generic(&self) -> (x: Instance) {
        self.to_instance()
    }

    fn from_generic(x: &Instance) -> (r: Option<Self>) {
        proof {
            if conforms(catalog(), catalog().len(), Shape::Ref(Self::index()), x@) {
                crate::minecraft::common::ScoreboardSelector::lemma_fits(x@, catalog().len());
            }
        }
        crate::minecraft::common::ScoreboardSelector::from_instance(x)
    }

    proof fn lemma_model_conforms(&self) {
        self.lemma_conforms(catalog().len());
    }

    proof fn lemma_model_legal(&self) {
        self.lemma_legal(catalog().len());
    }
}

impl Document for crate::minecraft::common::PlainValue {
    open spec fn model(&self) -> Datum {
        self.datum()
    }

    open spec fn index() -> nat {
        PLAIN_VALUE as nat
    }

    fn place() -> (k: usize) {
        proof {
            lemma_catalog();
        }
        PLAIN_VALUE
    }

    fn to_generic(&self) -> (x: Instance) {
        self.to_instance()
    }

    fn from_generic(x: &Instance) -> (r: Option<Self>) {
        proof {
            if conforms(catalog(), catalog().len(), Shape::Ref(Self::index()), x@) {
                crate::minecraft::common::PlainValue::lemma_fits(x@, catalog().len());
            }
        }
        crate::minecraft::common::PlainValue::from_instance(x)
    }

    proof fn lemma_model_conforms(&self) {
        self.lemma_conforms(catalog().len());
    }

    proof fn lemma_model_legal(&self) {
        self.lemma_legal(catalog().len());
    }
}

impl Document for crate::minecraft::text::ColourName {
    open spec fn model(&self) -> Datum {
        self.datum()
    }

    open spec fn index() -> nat {
        COLOUR_NAME as nat
    }

    fn place() -> (k: usize) {
        proof {
            lemma_catalog();
        }
        COLOUR_NAME
    }

    fn to_generic(&self) -> (x: Instance) {
        self.to_instance()
    }

    fn from_generic(x: &Instance) -> (r: Option<Self>) {
        proof {
            if conforms(catalog(), catalog().len(), Shape::Ref(Self::index()), x@) {
                crate::minecraft::text::ColourName::lemma_fits(x@, catalog().len());
            }
        }
        crate::minecraft::text::ColourName::from_instance(x)
    }

    proof fn lemma_model_conforms(&self) {
        self.lemma_conforms(catalog().len());
    }

    proof fn lemma_model_legal(&self) {
        self.lemma_legal(catalog().len());
    }
}

impl Document for crate::minecraft::text::Colour {
    open spec fn model(&self) -> Datum {
        self.datum()
    }

    open spec fn index() -> nat {
        COLOUR as nat
    }

    fn place() -> (k: usize) {
        proof {
            lemma_catalog();
        }
        COLOUR
    }

    fn to_generic(&self) -> (x: Instance) {
        self.to_instance()
    }

    fn from_generic(x: &Instance) -> (r: Option<Self>) {
        proof {
            if conforms(catalog(), catalog().len(), Shape::Ref(Self::index()), x@) {
                crate::minecraft::text::Colour::lemma_fits(x@, catalog().len());
            }
        }
        crate::minecraft::text::Colour::from_instance(x)
    }

    proof fn lemma_model_conforms(&self) {
        self.lemma_conforms(catalog().len());
    }

    proof fn lemma_model_legal(&self) {
        self.lemma_legal(catalog().len());
    }
}

impl Document for crate::minecraft::text::Formatting {
    open spec fn model(&self) -> Datum {
        self.datum()
    }

    open spec fn index() -> nat {
        FORMATTING as nat
    }

    fn place() -> (k: usize) {
        proof {
            lemma_catalog();
        }
        FORMATTING
    }

    fn to_generic(&self) -> (x: Instance) {
        self.to_instance()
    }

    fn from_generic(x: &Instance) -> (r: Option<Self>) {
        proof {
            if conforms(catalog(), catalog().len(), Shape::Ref(Self::index()), x@) {
                crate::minecraft::text::Formatting::lemma_fits(x@, catalog().len());
            }
        }
        crate::minecraft::text::Formatting::from_instance(x)
    }

    proof fn lemma_model_conforms(&self) {
        self.lemma_conforms(catalog().len());
    }

    proof fn lemma_model_legal(&self) {
        self.lemma_legal(catalog().len());
    }
}

impl Document for crate::minecraft::text::ClickEventAction {
    open spec fn model(&self) -> Datum {
        self.datum()
    }

    open spec fn index() -> nat {
        CLICK_EVENT_ACTION as nat
    }

    fn place() -> (k: usize) {
        proof {
            lemma_catalog();
        }
        CLICK_EVENT_ACTION
    }

    fn to_generic(&self) -> (x: Instance) {
        self.to_instance()
    }

    fn from_generic(x: &Instance) -> (r: Option<Self>) {
        proof {
            if conforms(catalog(), catalog().len(), Shape::Ref(Self::index()), x@) {
                crate::minecraft::text::ClickEventAction::lemma_fits(x@, catalog().len());
            }
        }
        crate::minecraft::text::ClickEventAction::from_instance(x)
    }

    proof fn lemma_model_conforms(&self) {
        self.lemma_conforms(catalog().len());
    }

    proof fn lemma_model_legal(&self) {
        self.lemma_legal(catalog().len());
    }
}

impl Document for crate::minecraft::text::ClickEvent {
    open spec fn model(&self) -> Datum {
        self.datum()
    }

    open spec fn index() -> nat {
        CLICK_EVENT as nat
    }

    fn place() -> (k: usize) {
        proof {
            lemma_catalog();
        }
        CLICK_EVENT
    }

    fn to_generic(&self) -> (x: Instance) {
        self.to_instance()
    }

    fn from_generic(x: &Instance) -> (r: Option<Self>) {
        proof {
            if conforms(catalog(), catalog().len(), Shape::Ref(Self::index()), x@) {
                crate::minecraft::text::ClickEvent::lemma_fits(x@, catalog().len());
            }
        }
        crate::minecraft::text::ClickEvent::from_instance(x)
    }

    proof fn lemma_model_conforms(&self) {
        self.lemma_conforms(catalog().len());
    }

    proof fn lemma_model_legal(&self) {
        self.lemma_legal(catalog().len());
    }
}

impl Document for crate::minecraft::text::Item {
    open spec fn model(&self) -> Datum {
        self.datum()
    }

    open spec fn index() -> nat {
        SHOWN_ITEM as nat
    }

    fn place() -> (k: usize) {
        proof {
            lemma_catalog();
        }
        SHOWN_ITEM
    }

    fn to_generic(&self) -> (x: Instance) {
        self.to_instance()
    }

    fn from_generic(x: &Instance) -> (r: Option<Self>) {
        proof {
            if conforms(catalog(), catalog().len(), Shape::Ref(Self::index()), x@) {
                crate::minecraft::text::Item::lemma_fits(x@, catalog().len());
            }
        }
        crate::minecraft::text::Item::from_instance(x)
    }

    proof fn lemma_model_conforms(&self) {
        self.lemma_conforms(catalog().len());
    }

    proof fn lemma_model_legal(&self) {
        self.lemma_legal(catalog().len());
    }
}

impl Document for crate::minecraft::text::LegacyEntity {
    open spec fn model(&self) -> Datum {
        self.datum()
    }

    open spec fn index() -> nat {
        LEGACY_ENTITY as nat
    }

    fn place() -> (k: usize) {
        proof {
            lemma_catalog();
        }
        LEGACY_ENTITY
    }

    fn to_generic(&self) -> (x: Instance) {
        self.to_instance()
    }

    fn from_generic(x: &Instance) -> (r: Option<Self>) {
        proof {
            if conforms(catalog(), catalog().len(), Shape::Ref(Self::index()), x@) {
                crate::minecraft::text::LegacyEntity::lemma_fits(x@, catalog().len());
            }
        }
        crate::minecraft::text::LegacyEntity::from_instance(x)
    }

    proof fn lemma_model_conforms(&self) {
        self.lemma_conforms(catalog().len());
    }

    proof fn lemma_model_legal(&self) {
        self.lemma_legal(catalog().len());
    }
}

impl Document for crate::minecraft::text::Entity {
    open spec fn model(&self) -> Datum {
        self.datum()
    }

    open spec fn index() -> nat {
        SHOWN_ENTITY as nat
    }

    fn place() -> (k: usize) {
        proof {
            lemma_catalog();
        }
        SHOWN_ENTITY
    }

    fn to_generic(&self) -> (x: Instance) {
        self.to_instance()
    }

    fn from_generic(x: &Instance) -> (r: Option<Self>) {
        proof {
            if conforms(catalog(), catalog().len(), Shape::Ref(Self::index()), x@) {
                crate::minecraft::text::Entity::lemma_fits(x@, catalog().len());
            }
        }
        crate::minecraft::text::Entity::from_instance(x)
    }

    proof fn lemma_model_conforms(&self) {
        self.lemma_conforms(catalog().len());
    }

    proof fn lemma_model_legal(&self) {
        self.lemma_legal(catalog().len());
    }
}

impl Document for crate::minecraft::text::HoverEvent {
    open spec fn model(&self) -> Datum {
        self.datum()
    }

    open spec fn index() -> nat {
        HOVER_EVENT as nat
    }

    fn place() -> (k: usize) {
        proof {
            lemma_catalog();
        }
        HOVER_EVENT
    }

    fn to_generic(&self) -> (x: Instance) {
        self.to_instance()
    }

    fn from_generic(x: &Instance) -> (r: Option<Self>) {
        proof {
            if conforms(catalog(), catalog().len(), Shape::Ref(Self::index()), x@) {
                crate::minecraft::text::HoverEvent::lemma_fits(x@, catalog().len());
            }
        }
        crate::minecraft::text::HoverEvent::from_instance(x)
    }

    proof fn lemma_model_conforms(&self) {
        self.lemma_conforms(catalog().len());
    }

    proof fn lemma_model_legal(&self) {
        self.lemma_legal(catalog().len());
    }
}

impl Document for crate::minecraft::text::Interactivity {
    open spec fn model(&self) -> Datum {
        self.datum()
    }

    open spec fn index() -> nat {
        INTERACTIVITY as nat
    }

    fn place() -> (k: usize) {
        proof {
            lemma_catalog();
        }
        INTERACTIVITY
    }

    fn to_generic(&self) -> (x: Instance) {
        self.to_instance()
    }

    fn from_generic(x: &Instance) -> (r: Option<Self>) {
        proof {
            if conforms(catalog(), catalog().len(), Shape::Ref(Self::index()), x@) {
                crate::minecraft::text::Interactivity::lemma_fits(x@, catalog().len());
            }
        }
        crate::minecraft::text::Interactivity::from_instance(x)
    }

    proof fn lemma_model_conforms(&self) {
        self.lemma_conforms(catalog().len());
    }

    proof fn lemma_model_legal(&self) {
        self.lemma_legal(catalog().len());
    }
}

impl Document for crate::minecraft::text::TextComponentTags {
    open spec fn model(&self) -> Datum {
        self.datum()
    }

    open spec fn index() -> nat {
        TEXT_COMPONENT_TAGS as nat
    }

    fn place() -> (k: usize) {
        proof {
            lemma_catalog();
        }
        TEXT_COMPONENT_TAGS
    }

    fn to_generic(&self) -> (x: Instance) {
        self.to_instance()
    }

    fn from_generic(x: &Instance) -> (r: Option<Self>) {
        proof {
            if conforms(catalog(), catalog().len(), Shape::Ref(Self::index()), x@) {
                crate::minecraft::text::TextComponentTags::lemma_fits(x@, catalog().len());
            }
        }
        crate::minecraft::text::TextComponentTags::from_instance(x)
    }

    proof fn lemma_model_conforms(&self) {
        self.lemma_conforms(catalog().len());
    }

    proof fn lemma_model_legal(&self) {
        self.lemma_legal(catalog().len());
    }
}

impl Document for crate::minecraft::text::Score {
    open spec fn model(&self) -> Datum {
        self.datum()
    }

    open spec fn index() -> nat {
        SCORE as nat
    }

    fn place() -> (k: usize) {
        proof {
            lemma_catalog();
        }
        SCORE
    }

    fn to_generic(&self) -> (x: Instance) {
        self.to_instance()
    }

    fn from_generic(x: &Instance) -> (r: Option<Self>) {
        proof {
            if conforms(catalog(), catalog().len(), Shape::Ref(Self::index()), x@) {
                crate::minecraft::text::Score::lemma_fits(x@, catalog().len());
            }
        }
        crate::minecraft::text::Score::from_instance(x)
    }

    proof fn lemma_model_conforms(&self) {
        self.lemma_conforms(catalog().len());
    }

    proof fn lemma_model_legal(&self) {
        self.lemma_legal(catalog().len());
    }
}

impl Document for crate::minecraft::text::StringLike {
    open spec fn model(&self) -> Datum {
        self.datum()
    }

    open spec fn index() -> nat {
        STRING_LIKE as nat
    }

    fn place() -> (k: usize) {
        proof {
            lemma_catalog();
        }
        STRING_LIKE
    }

    fn to_generic(&self) -> (x: Instance) {
        self.to_instance()
    }

    fn from_generic(x: &Instance) -> (r: Option<Self>) {
        proof {
            if conforms(catalog(), catalog().len(), Shape::Ref(Self::index()), x@) {
                crate::minecraft::text::StringLike::lemma_fits(x@, catalog().len());
            }
        }
        crate::minecraft::text::StringLike::from_instance(x)
    }

    proof fn lemma_model_conforms(&self) {
        self.lemma_conforms(catalog().len());
    }

    proof fn lemma_model_legal(&self) {
        self.lemma_legal(catalog().len());
    }
}

impl Document for crate::minecraft::text::TextComponent {
    open spec fn model(&self) -> Datum {
        self.datum()
    }

    open spec fn index() -> nat {
        TEXT_COMPONENT as nat
    }

    fn place() -> (k: usize) {
        proof {
            lemma_catalog();
        }
        TEXT_COMPONENT
    }

    fn to_generic(&self) -> (x: Instance) {
        self.to_instance()
    }

    fn from_generic(x: &Instance) -> (r: Option<Self>) {
        proof {
            if conforms(catalog(), catalog().len(), Shape::Ref(Self::index()), x@) {
                crate::minecraft::text::TextComponent::lemma_fits(x@, catalog().len());
            }
        }
        crate::minecraft::text::TextComponent::from_instance(x)
    }

    proof fn lemma_model_conforms(&self) {
        self.lemma_conforms(catalog().len());
    }

    proof fn lemma_model_legal(&self) {
        self.lemma_legal(catalog().len());
    }
}

impl Document for crate::minecraft::data::conditions::Enchantment {
    open spec fn model(&self) -> Datum {
        self.datum()
    }

    open spec fn index() -> nat {
        ENCHANTMENT as nat
    }

    fn place() -> (k: usize) {
        proof {
            lemma_catalog();
        }
        ENCHANTMENT
    }

    fn to_generic(&self) -> (x: Instance) {
        self.to_instance()
    }

    fn from_generic(x: &Instance) -> (r: Option<Self>) {
        proof {
            if conforms(catalog(), catalog().len(), Shape::Ref(Self::index()), x@) {
                crate::minecraft::data::conditions::Enchantment::lemma_fits(x@, catalog().len());
            }
        }
        crate::minecraft::data::conditions::Enchantment::from_instance(x)
    }

    proof fn lemma_model_conforms(&self) {
        self.lemma_conforms(catalog().len());
    }

    proof fn lemma_model_legal(&self) {
        self.lemma_legal(catalog().len());
    }
}

impl Document for crate::minecraft::data::conditions::Item {
    open spec fn model(&self) -> Datum {
        self.datum()
    }

    open spec fn index() -> nat {
        ITEM as nat
    }

    fn place() -> (k: usize) {
        proof {
            lemma_catalog();
        }
        ITEM
    }

    fn to_generic(&self) -> (x: Instance) {
        self.to_instance()
    }

    fn from_generic(x: &Instance) -> (r: Option<Self>) {
        proof {
            if conforms(catalog(), catalog().len(), Shape::Ref(Self::index()), x@) {
                crate::minecraft::data::conditions::Item::lemma_fits(x@, catalog().len());
            }
        }
        crate::minecraft::data::conditions::Item::from_instance(x)
    }

    proof fn lemma_model_conforms(&self) {
        self.lemma_conforms(catalog().len());
    }

    proof fn lemma_model_legal(&self) {
        self.lemma_legal(catalog().len());
    }
}

impl Document for crate::minecraft::data::conditions::Block {
    open spec fn model(&self) -> Datum {
        self.datum()
    }

    open spec fn index() -> nat {
        BLOCK as nat
    }

    fn place() -> (k: usize) {
        proof {
            lemma_catalog();
        }
        BLOCK
    }

    fn to_generic(&self) -> (x: Instance) {
        self.to_instance()
    }

    fn from_generic(x: &Instance) -> (r: Option<Self>) {
        proof {
            if conforms(catalog(), catalog().len(), Shape::Ref(Self::index()), x@) {
                crate::minecraft::data::conditions::Block::lemma_fits(x@, catalog().len());
            }
        }
        crate::minecraft::data::conditions::Block::from_instance(x)
    }

    proof fn lemma_model_conforms(&self) {
        self.lemma_conforms(catalog().len());
    }

    proof fn lemma_model_legal(&self) {
        self.lemma_legal(catalog().len());
    }
}

impl Document for crate::minecraft::data::conditions::Fluid {
    open spec fn model(&self) -> Datum {
        self.datum()
    }

    open spec fn index() -> nat {
        FLUID as nat
    }

    fn place() -> (k: usize) {
        proof {
            lemma_catalog();
        }
        FLUID
    }

    fn to_generic(&self) -> (x: Instance) {
        self.to_instance()
    }

    fn from_generic(x: &Instance) -> (r: Option<Self>) {
        proof {
            if conforms(catalog(), catalog().len(), Shape::Ref(Self::index()), x@) {
                crate::minecraft::data::conditions::Fluid::lemma_fits(x@, catalog().len());
            }
        }
        crate::minecraft::data::conditions::Fluid::from_instance(x)
    }

    proof fn lemma_model_conforms(&self) {
        self.lemma_conforms(catalog().len());
    }

    proof fn lemma_model_legal(&self) {
        self.lemma_legal(catalog().len());
    }
}

impl Document for crate::minecraft::data::conditions::Location {
    open spec fn model(&self) -> Datum {
        self.datum()
    }

    open spec fn index() -> nat {
        LOCATION as nat
    }

    fn place() -> (k: usize) {
        proof {
            lemma_catalog();
        }
        LOCATION
    }

    fn to_generic(&self) -> (x: Instance) {
        self.to_instance()
    }

    fn from_generic(x: &Instance) -> (r: Option<Self>) {
        proof {
            if conforms(catalog(), catalog().len(), Shape::Ref(Self::index()), x@) {
                crate::minecraft::data::conditions::Location::lemma_fits(x@, catalog().len());
            }
        }
        crate::minecraft::data::conditions::Location::from_instance(x)
    }

    proof fn lemma_model_conforms(&self) {
        self.lemma_conforms(catalog().len());
    }

    proof fn lemma_model_legal(&self) {
        self.lemma_legal(catalog().len());
    }
}

impl Document for crate::minecraft::data::conditions::Distance {
    open spec fn model(&self) -> Datum {
        self.datum()
    }

    open spec fn index() -> nat {
        DISTANCE as nat
    }

    fn place() -> (k: usize) {
        proof {
            lemma_catalog();
        }
        DISTANCE
    }

    fn to_generic(&self) -> (x: Instance) {
        self.to_instance()
    }

    fn from_generic(x: &Instance) -> (r: Option<Self>) {
        proof {
            if conforms(catalog(), catalog().len(), Shape::Ref(Self::index()), x@) {
                crate::minecraft::data::conditions::Distance::lemma_fits(x@, catalog().len());
            }
        }
        crate::minecraft::data::conditions::Distance::from_instance(x)
    }

    proof fn lemma_model_conforms(&self) {
        self.lemma_conforms(catalog().len());
    }

    proof fn lemma_model_legal(&self) {
        self.lemma_legal(catalog().len());
    }
}

impl Document for crate::minecraft::data::conditions::Effect {
    open spec fn model(&self) -> Datum {
        self.datum()
    }

    open spec fn index() -> nat {
        EFFECT as nat
    }

    fn place() -> (k: usize) {
        proof {
            lemma_catalog();
        }
        EFFECT
    }

    fn to_generic(&self) -> (x: Instance) {
        self.to_instance()
    }

    fn from_generic(x: &Instance) -> (r: Option<Self>) {
        proof {
            if conforms(catalog(), catalog().len(), Shape::Ref(Self::index()), x@) {
                crate::minecraft::data::conditions::Effect::lemma_fits(x@, catalog().len());
            }
        }
        crate::minecraft::data::conditions::Effect::from_instance(x)
    }

    proof fn lemma_model_conforms(&self) {
        self.lemma_conforms(catalog().len());
    }

    proof fn lemma_model_legal(&self) {
        self.lemma_legal(catalog().len());
    }
}

impl Document for crate::minecraft::data::conditions::Equipment {
    open spec fn model(&self) -> Datum {
        self.datum()
    }

    open spec fn index() -> nat {
        EQUIPMENT as nat
    }

    fn place() -> (k: usize) {
        proof {
            lemma_catalog();
        }
        EQUIPMENT
    }

    fn to_generic(&self) -> (x: Instance) {
        self.to_instance()
    }

    fn from_generic(x: &Instance) -> (r: Option<Self>) {
        proof {
            if conforms(catalog(), catalog().len(), Shape::Ref(Self::index()), x@) {
                crate::minecraft::data::conditions::Equipment::lemma_fits(x@, catalog().len());
            }
        }
        crate::minecraft::data::conditions::Equipment::from_instance(x)
    }

    proof fn lemma_model_conforms(&self) {
        self.lemma_conforms(catalog().len());
    }

    proof fn lemma_model_legal(&self) {
        self.lemma_legal(catalog().len());
    }
}

impl Document for crate::minecraft::data::conditions::EntityFlags {
    open spec fn model(&self) -> Datum {
        self.datum()
    }

    open spec fn index() -> nat {
        ENTITY_FLAGS as nat
    }

    fn place() -> (k: usize) {
        proof {
            lemma_catalog();
        }
        ENTITY_FLAGS
    }

    fn to_generic(&self) -> (x: Instance) {
        self.to_instance()
    }

    fn from_generic(x: &Instance) -> (r: Option<Self>) {
        proof {
            if conforms(catalog(), catalog().len(), Shape::Ref(Self::index()), x@) {
                crate::minecraft::data::conditions::EntityFlags::lemma_fits(x@, catalog().len());
            }
        }
        crate::minecraft::data::conditions::EntityFlags::from_instance(x)
    }

    proof fn lemma_model_conforms(&self) {
        self.lemma_conforms(catalog().len());
    }

    proof fn lemma_model_legal(&self) {
        self.lemma_legal(catalog().len());
    }
}

impl Document for crate::minecraft::data::conditions::AdvancementStatus {
    open spec fn model(&self) -> Datum {
        self.datum()
    }

    open spec fn index() -> nat {
        ADVANCEMENT_STATUS as nat
    }

    fn place() -> (k: usize) {
        proof {
            lemma_catalog();
        }
        ADVANCEMENT_STATUS
    }

    fn to_generic(&self) -> (x: Instance) {
        self.to_instance()
    }

    fn from_generic(x: &Instance) -> (r: Option<Self>) {
        proof {
            if conforms(catalog(), catalog().len(), Shape::Ref(Self::index()), x@) {
                crate::minecraft::data::conditions::AdvancementStatus::lemma_fits(
                    x@,
                    catalog().len(),
                );
            }
        }
        crate::minecraft::data::conditions::AdvancementStatus::from_instance(x)
    }

    proof fn lemma_model_conforms(&self) {
        self.lemma_conforms(catalog().len());
    }

    proof fn lemma_model_legal(&self) {
        self.lemma_legal(catalog().len());
    }
}

impl Document for crate::minecraft::data::conditions::GameMode {
    open spec fn model(&self) -> Datum {
        self.datum()
    }

    open spec fn index() -> nat {
        GAME_MODE as nat
    }

    fn place() -> (k: usize) {
        proof {
            lemma_catalog();
        }
        GAME_MODE
    }

    fn to_generic(&self) -> (x: Instance) {
        self.to_instance()
    }

    fn from_generic(x: &Instance) -> (r: Option<Self>) {
        proof {
            if conforms(catalog(), catalog().len(), Shape::Ref(Self::index()), x@) {
                crate::minecraft::data::conditions::GameMode::lemma_fits(x@, catalog().len());
            }
        }
        crate::minecraft::data::conditions::GameMode::from_instance(x)
    }

    proof fn lemma_model_conforms(&self) {
        self.lemma_conforms(catalog().len());
    }

    proof fn lemma_model_legal(&self) {
        self.lemma_legal(catalog().len());
    }
}

impl Document for crate::minecraft::data::conditions::Statistic {
    open spec fn model(&self) -> Datum {
        self.datum()
    }

    open spec fn index() -> nat {
        STATISTIC as nat
    }

    fn place() -> (k: usize) {
        proof {
            lemma_catalog();
        }
        STATISTIC
    }

    fn to_generic(&self) -> (x: Instance) {
        self.to_instance()
    }

    fn from_generic(x: &Instance) -> (r: Option<Self>) {
        proof {
            if conforms(catalog(), catalog().len(), Shape::Ref(Self::index()), x@) {
                crate::minecraft::data::conditions::Statistic::lemma_fits(x@, catalog().len());
            }
        }
        crate::minecraft::data::conditions::Statistic::from_instance(x)
    }

    proof fn lemma_model_conforms(&self) {
        self.lemma_conforms(catalog().len());
    }

    proof fn lemma_model_legal(&self) {
        self.lemma_legal(catalog().len());
    }
}

impl Document for crate::minecraft::data::conditions::Entity {
    open spec fn model(&self) -> Datum {
        self.datum()
    }

    open spec fn index() -> nat {
        ENTITY as nat
    }

    fn place() -> (k: usize) {
        proof {
            lemma_catalog();
        }
        ENTITY
    }

    fn to_generic(&self) -> (x: Instance) {
        self.to_instance()
    }

    fn from_generic(x: &Instance) -> (r: Option<Self>) {
        proof {
            if conforms(catalog(), catalog().len(), Shape::Ref(Self::index()), x@) {
                crate::minecraft::data::conditions::Entity::lemma_fits(x@, catalog().len());
            }
        }
        crate::minecraft::data::conditions::Entity::from_instance(x)
    }

    proof fn lemma_model_conforms(&self) {
        self.lemma_conforms(catalog().len());
    }

    proof fn lemma_model_legal(&self) {
        self.lemma_legal(catalog().len());
    }
}

impl Document for crate::minecraft::data::conditions::LightningBolt {
    open spec fn model(&self) -> Datum {
        self.datum()
    }

    open spec fn index() -> nat {
        LIGHTNING_BOLT as nat
    }

    fn place() -> (k: usize) {
        proof {
            lemma_catalog();
        }
        LIGHTNING_BOLT
    }

    fn to_generic(&self) -> (x: Instance) {
        self.to_instance()
    }

    fn from_generic(x: &Instance) -> (r: Option<Self>) {
        proof {
            if conforms(catalog(), catalog().len(), Shape::Ref(Self::index()), x@) {
                crate::minecraft::data::conditions::LightningBolt::lemma_fits(x@, catalog().len());
            }
        }
        crate::minecraft::data::conditions::LightningBolt::from_instance(x)
    }

    proof fn lemma_model_conforms(&self) {
        self.lemma_conforms(catalog().len());
    }

    proof fn lemma_model_legal(&self) {
        self.lemma_legal(catalog().len());
    }
}

impl Document for crate::minecraft::data::conditions::Player {
    open spec fn model(&self) -> Datum {
        self.datum()
    }

    open spec fn index() -> nat {
        PLAYER as nat
    }

    fn place() -> (k: usize) {
        proof {
            lemma_catalog();
        }
        PLAYER
    }

    fn to_generic(&self) -> (x: Instance) {
        self.to_instance()
    }

    fn from_generic(x: &Instance) -> (r: Option<Self>) {
        proof {
            if conforms(catalog(), catalog().len(), Shape::Ref(Self::index()), x@) {
                crate::minecraft::data::conditions::Player::lemma_fits(x@, catalog().len());
            }
        }
        crate::minecraft::data::conditions::Player::from_instance(x)
    }

    proof fn lemma_model_conforms(&self) {
        self.lemma_conforms(catalog().len());
    }

    proof fn lemma_model_legal(&self) {
        self.lemma_legal(catalog().len());
    }
}

impl Document for crate::minecraft::data::conditions::DamageSource {
    open spec fn model(&self) -> Datum {
        self.datum()
    }

    open spec fn index() -> nat {
        DAMAGE_SOURCE as nat
    }

    fn place() -> (k: usize) {
        proof {
            lemma_catalog();
        }
        DAMAGE_SOURCE
    }

    fn to_generic(&self) -> (x: Instance) {
        self.to_instance()
    }

    fn from_generic(x: &Instance) -> (r: Option<Self>) {
        proof {
            if conforms(catalog(), catalog().len(), Shape::Ref(Self::index()), x@) {
                crate::minecraft::data::conditions::DamageSource::lemma_fits(x@, catalog().len());
            }
        }
        crate::minecraft::data::conditions::DamageSource::from_instance(x)
    }

    proof fn lemma_model_conforms(&self) {
        self.lemma_conforms(catalog().len());
    }

    proof fn lemma_model_legal(&self) {
        self.lemma_legal(catalog().len());
    }
}

impl Document for crate::minecraft::data::advancement::Icon {
    open spec fn model(&self) -> Datum {
        self.datum()
    }

    open spec fn index() -> nat {
        ICON as nat
    }

    fn place() -> (k: usize) {
        proof {
            lemma_catalog();
        }
        ICON
    }

    fn to_generic(&self) -> (x: Instance) {
        self.to_instance()
    }

    fn from_generic(x: &Instance) -> (r: Option<Self>) {
        proof {
            if conforms(catalog(), catalog().len(), Shape::Ref(Self::index()), x@) {
                crate::minecraft::data::advancement::Icon::lemma_fits(x@, catalog().len());
            }
        }
        crate::minecraft::data::advancement::Icon::from_instance(x)
    }

    proof fn lemma_model_conforms(&self) {
        self.lemma_conforms(catalog().len());
    }

    proof fn lemma_model_legal(&self) {
        self.lemma_legal(catalog().len());
    }
}

impl Document for crate::minecraft::data::advancement::Frame {
    open spec fn model(&self) -> Datum {
        self.datum()
    }

    open spec fn index() -> nat {
        FRAME as nat
    }

    fn place() -> (k: usize) {
        proof {
            lemma_catalog();
        }
        FRAME
    }

    fn to_generic(&self) -> (x: Instance) {
        self.to_instance()
    }

    fn from_generic(x: &Instance) -> (r: Option<Self>) {
        proof {
            if conforms(catalog(), catalog().len(), Shape::Ref(Self::index()), x@) {
                crate::minecraft::data::advancement::Frame::lemma_fits(x@, catalog().len());
            }
        }
        crate::minecraft::data::advancement::Frame::from_instance(x)
    }

    proof fn lemma_model_conforms(&self) {
        self.lemma_conforms(catalog().len());
    }

    proof fn lemma_model_legal(&self) {
        self.lemma_legal(catalog().len());
    }
}

impl Document for crate::minecraft::data::advancement::Display {
    open spec fn model(&self) -> Datum {
        self.datum()
    }

    open spec fn index() -> nat {
        DISPLAY as nat
    }

    fn place() -> (k: usize) {
        proof {
            lemma_catalog();
        }
        DISPLAY
    }

    fn to_generic(&self) -> (x: Instance) {
        self.to_instance()
    }

    fn from_generic(x: &Instance) -> (r: Option<Self>) {
        proof {
            if conforms(catalog(), catalog().len(), Shape::Ref(Self::index()), x@) {
                crate::minecraft::data::advancement::Display::lemma_fits(x@, catalog().len());
            }
        }
        crate::minecraft::data::advancement::Display::from_instance(x)
    }

    proof fn lemma_model_conforms(&self) {
        self.lemma_conforms(catalog().len());
    }

    proof fn lemma_model_legal(&self) {
        self.lemma_legal(catalog().len());
    }
}

impl Document for crate::minecraft::data::advancement::Criterion {
    open spec fn model(&self) -> Datum {
        self.datum()
    }

    open spec fn index() -> nat {
        CRITERION as nat
    }

    fn place() -> (k: usize) {
        proof {
            lemma_catalog();
        }
        CRITERION
    }

    fn to_generic(&self) -> (x: Instance) {
        self.to_instance()
    }

    fn from_generic(x: &Instance) -> (r: Option<Self>) {
        proof {
            if conforms(catalog(), catalog().len(), Shape::Ref(Self::index()), x@) {
                crate::minecraft::data::advancement::Criterion::lemma_fits(x@, catalog().len());
            }
        }
        crate::minecraft::data::advancement::Criterion::from_instance(x)
    }

    proof fn lemma_model_conforms(&self) {
        self.lemma_conforms(catalog().len());
    }

    proof fn lemma_model_legal(&self) {
        self.lemma_legal(catalog().len());
    }
}

impl Document for crate::minecraft::data::advancement::Rewards {
    open spec fn model(&self) -> Datum {
        self.datum()
    }

    open spec fn index() -> nat {
        REWARDS as nat
    }

    fn place() -> (k: usize) {
        proof {
            lemma_catalog();
        }
        REWARDS
    }

    fn to_generic(&self) -> (x: Instance) {
        self.to_instance()
    }

    fn from_generic(x: &Instance) -> (r: Option<Self>) {
        proof {
            if conforms(catalog(), catalog().len(), Shape::Ref(Self::index()), x@) {
                crate::minecraft::data::advancement::Rewards::lemma_fits(x@, catalog().len());
            }
        }
        crate::minecraft::data::advancement::Rewards::from_instance(x)
    }

    proof fn lemma_model_conforms(&self) {
        self.lemma_conforms(catalog().len());
    }

    proof fn lemma_model_legal(&self) {
        self.lemma_legal(catalog().len());
    }
}

impl Document for crate::minecraft::data::advancement::Advancement {
    open spec fn model(&self) -> Datum {
        self.datum()
    }

    open spec fn index() -> nat {
        ADVANCEMENT as nat
    }

    fn place() -> (k: usize) {
        proof {
            lemma_catalog();
        }
        ADVANCEMENT
    }

    fn to_generic(&self) -> (x: Instance) {
        self.to_instance()
    }

    fn from_generic(x: &Instance) -> (r: Option<Self>) {
        proof {
            if conforms(catalog(), catalog().len(), Shape::Ref(Self::index()), x@) {
                crate::minecraft::data::advancement::Advancement::lemma_fits(x@, catalog().len());
            }
        }
        crate::minecraft::data::advancement::Advancement::from_instance(x)
    }

    proof fn lemma_model_conforms(&self) {
        self.lemma_conforms(catalog().len());
    }

    proof fn lemma_model_legal(&self) {
        self.lemma_legal(catalog().len());
    }
}

impl Document for crate::minecraft::data::meta::McMeta {
    open spec fn model(&self) -> Datum {
        self.datum()
    }

    open spec fn index() -> nat {
        MC_META as nat
    }

    fn place() -> (k: usize) {
        proof {
            lemma_catalog();
        }
        MC_META
    }

    fn to_generic(&self) -> (x: Instance) {
        self.to_instance()
    }

    fn from_generic(x: &Instance) -> (r: Option<Self>) {
        proof {
            if conforms(catalog(), catalog().len(), Shape::Ref(Self::index()), x@) {
                crate::minecraft::data::meta::McMeta::lemma_fits(x@, catalog().len());
            }
        }
        crate::minecraft::data::meta::McMeta::from_instance(x)
    }

    proof fn lemma_model_conforms(&self) {
        self.lemma_conforms(catalog().len());
    }

    proof fn lemma_model_legal(&self) {
        self.lemma_legal(catalog().len());
    }
}

impl Document for crate::minecraft::data::predicate::WhichEntity {
    open spec fn model(&self) -> Datum {
        self.datum()
    }

    open spec fn index() -> nat {
        WHICH_ENTITY as nat
    }

    fn place() -> (k: usize) {
        proof {
            lemma_catalog();
        }
        WHICH_ENTITY
    }

    fn to_generic(&self) -> (x: Instance) {
        self.to_instance()
    }

    fn from_generic(x: &Instance) -> (r: Option<Self>) {
        proof {
            if conforms(catalog(), catalog().len(), Shape::Ref(Self::index()), x@) {
                crate::minecraft::data::predicate::WhichEntity::lemma_fits(x@, catalog().len());
            }
        }
        crate::minecraft::data::predicate::WhichEntity::from_instance(x)
    }

    proof fn lemma_model_conforms(&self) {
        self.lemma_conforms(catalog().len());
    }

    proof fn lemma_model_legal(&self) {
        self.lemma_legal(catalog().len());
    }
}

impl Document for crate::minecraft::data::predicate::Predicate {
    open spec fn model(&self) -> Datum {
        self.datum()
    }

    open spec fn index() -> nat {
        PREDICATE as nat
    }

    fn place() -> (k: usize) {
        proof {
            lemma_catalog();
        }
        PREDICATE
    }

    fn to_generic(&self) -> (x: Instance) {
        self.to_instance()
    }

    fn from_generic(x: &Instance) -> (r: Option<Self>) {
        proof {
            if conforms(catalog(), catalog().len(), Shape::Ref(Self::index()), x@) {
                crate::minecraft::data::predicate::Predicate::lemma_fits(x@, catalog().len());
            }
        }
        crate::minecraft::data::predicate::Predicate::from_instance(x)
    }

    proof fn lemma_model_conforms(&self) {
        self.lemma_conforms(catalog().len());
    }

    proof fn lemma_model_legal(&self) {
        self.lemma_legal(catalog().len());
    }
}

/// The typed codec: the definitions of the catalog, checked once when it is
/// made and read-only afterwards.
pub struct Catalog {
    schema: Schema,
}

impl Catalog {
    #[verifier::type_invariant]
    spec fn ready(self) -> bool {
        self.schema.table() == catalog()
    }

    /// Builds the definitions of the catalog and checks them. A definition
    /// that is not well defined is an error here, never while a document is
    /// read or written.
    pub fn new() -> (r: Result<Catalog, SchemaDefinitionError>)
        ensures
            r is Ok <==> table_ok(catalog()),
            r matches Err(e) ==> e.def < catalog().len() && !shape_ok(
                catalog(),
                e.def as nat,
                catalog()[e.def as int],
            ),
    {
        proof {
            lemma_catalog();
        }
        match Schema::new(catalog_nodes(), 0) {
            Ok(schema) => Ok(Catalog { schema }),
            Err(e) => Err(e),
        }
    }

    /// The document that stands for `t`. Reading it gives `t` back.
    pub fn encode<T: Document>(&self, t: &T) -> (v: Value)
        ensures
            v@ == encode_spec(catalog(), catalog().len(), Shape::Ref(T::index()), t.model()),
            decode_spec(catalog(), catalog().len(), Shape::Ref(T::index()), v@) == Ok::<Datum, Failure>(
                t.model(),
            ),
    {
        proof {
            use_type_invariant(self);
            t.lemma_model_conforms();
        }
        let x = t.to_generic();
        let r = self.schema.encode_at(T::place(), &x);
        proof {
            lemma_typed_round_trip(*t);
        }
        match r {
            Some(v) => v,
            None => Value::Null,
        }
    }

    /// Reads the document `v` as a value of type `T`.
    pub fn decode<T: Document>(&self, v: &Value) -> (r: Result<T, DecodeError>)
        ensures
            match decode_spec(catalog(), catalog().len(), Shape::Ref(T::index()), v@) {
                Ok(d) => r matches Ok(t) && t.model() == d,
                Err(e) => r matches Err(x) && x@ == e,
            },
    {
        proof {
            use_type_invariant(self);
        }
        match self.schema.decode_at(T::place(), v) {
            Ok(x) => {
                proof {
                    lemma_decode_conforms(catalog(), catalog().len(), Shape::Ref(T::index()), v@);
                }
                match T::from_generic(&x) {
                    Some(t) => Ok(t),
                    None => Err(DecodeError::here(ErrorKind::MissingTag)),
                }
            },
            Err(e) => Err(e),
        }
    }
}

/// Round-trip law for typed values: every value of a type of the catalog is
/// read back as itself from the document that stands for it.
pub proof fn lemma_typed_round_trip<T: Document>(t: T)
    requires
        table_ok(catalog()),
    ensures
        decode_spec(
            catalog(),
            catalog().len(),
            Shape::Ref(T::index()),
            encode_spec(catalog(), catalog().len(), Shape::Ref(T::index()), t.model()),
        ) == Ok::<Datum, Failure>(t.model()),
{
    t.lemma_model_legal();
    lemma_round_trip(catalog(), catalog().len(), Shape::Ref(T::index()), t.model());
}

/// Canonical-form law for typed values: a document that the codec writes for
/// a value of a type of the catalog is written back unchanged after it was
/// read.
pub proof fn lemma_typed_canonical_form<T: Document>(t: T, v: Json)
    requires
        table_ok(catalog()),
        v == encode_spec(catalog(), catalog().len(), Shape::Ref(T::index()), t.model()),
    ensures
        decode_spec(catalog(), catalog().len(), Shape::Ref(T::index()), v) is Ok,
        encode_spec(
            catalog(),
            catalog().len(),
            Shape::Ref(T::index()),
            decode_spec(catalog(), catalog().len(), Shape::Ref(T::index()), v)->Ok_0,
        ) == v,
{
    lemma_typed_round_trip(t);
}

} // verus!
