//! Predicates: the conditions of loot tables, of `/execute if predicate` and
//! of the predicate selector argument.

use crate::encode::{conforms, encode_spec, legal};
use crate::instance::{data, Datum, Instance};
use crate::minecraft::catalog::{catalog, lemma_catalog, PREDICATE, WHICH_ENTITY};
use crate::minecraft::common::{
    Either, int_or_int_provider_conforms, int_or_int_provider_datum, int_or_int_provider_fits,
    int_or_int_provider_from, int_or_int_provider_legal, int_or_int_provider_node,
    int_or_int_provider_shape, int_or_int_provider_to, int_or_int_provider_valid, NumberProvider,
    Ranged2, ranged_int_int_or_int_provider_conforms, ranged_int_int_or_int_provider_datum,
    ranged_int_int_or_int_provider_fits, ranged_int_int_or_int_provider_from,
    ranged_int_int_or_int_provider_legal, ranged_int_int_or_int_provider_node,
    ranged_int_int_or_int_provider_shape, ranged_int_int_or_int_provider_to,
    ranged_int_int_or_int_provider_valid, ranged_int_map_conforms, ranged_int_map_datum,
    ranged_int_map_fits, ranged_int_map_from, ranged_int_map_legal, ranged_int_map_node,
    ranged_int_map_shape, ranged_int_map_to, ranged_int_map_valid,
    ranged_int_or_int_provider_conforms, ranged_int_or_int_provider_datum,
    ranged_int_or_int_provider_fits, ranged_int_or_int_provider_from,
    ranged_int_or_int_provider_legal, ranged_int_or_int_provider_node,
    ranged_int_or_int_provider_shape, ranged_int_or_int_provider_to,
    ranged_int_or_int_provider_valid,
};
use crate::minecraft::data::conditions::{DamageSource, Entity, Item, Location};
use crate::minecraft::plain::{
    bool_from, bool_node, bool_to, boxed, defaulted, empty_map, field_defaulted, field_required,
    int_from, int_node, int_to, lemma_field, lemma_more_fields, lemma_no_fields, lemma_plain,
    lemma_plain_legal, lemma_record, lemma_ref, lemma_unref, no_branches, no_fields, no_values,
    no_words, number_from, number_list_conforms, number_list_datum, number_list_fits,
    number_list_from, number_list_legal, number_list_node, number_list_shape, number_list_to,
    number_list_valid, number_node, number_to, opt_bool_conforms, opt_bool_datum, opt_bool_fits,
    opt_bool_from, opt_bool_legal, opt_bool_node, opt_bool_shape, opt_bool_to, opt_bool_valid,
    opt_int_conforms, opt_int_datum, opt_int_fits, opt_int_from, opt_int_legal, opt_int_node,
    opt_int_shape, opt_int_to, opt_int_valid, push_branch, push_field, push_value, push_word,
    required, text_from, text_map_conforms, text_map_datum, text_map_fits, text_map_from,
    text_map_legal, text_map_node, text_map_shape, text_map_to, text_map_valid, text_node, text_to,
    word,
};
use crate::rejects::{
    lemma_more_fields_legal, lemma_no_fields_legal, lemma_record_legal, lemma_written_by_reference,
};
use crate::schema::{FieldShape, Node, Omit, Shape};
use crate::value::{Number, words};
use vstd::prelude::*;

verus! {

/// The entity of the loot context that a predicate looks at.
#[derive(Debug, PartialEq, Eq)]
pub enum WhichEntity {
    This,
    Killer,
    KillerPlayer,
}

impl WhichEntity {
    /// The words that stand for the variants, in declaration order.
    pub open spec fn names() -> Seq<Seq<char>> {
        Seq::empty().push("this"@).push("killer"@).push("killer_player"@)
    }

    /// The model of this value.
    pub open spec fn datum(&self) -> Datum {
        Datum::Keyword(
            match self {
                WhichEntity::This => 0,
                WhichEntity::Killer => 1,
                WhichEntity::KillerPlayer => 2,
            },
        )
    }

    /// Whether `d` is the model of a value of this type.
    pub open spec fn valid(d: Datum) -> bool {
        d matches Datum::Keyword(i) && i < 3
    }

    /// The shape of the documents of this type.
    #[verifier::opaque]
    pub open spec fn def_shape() -> Shape {
        Shape::Keyword(Self::names())
    }

    /// The node of the documents of this type.
    pub fn def_node() -> (n: Node)
        ensures
            n.shape() == Self::def_shape(),
    {
        reveal(WhichEntity::def_shape);
        let mut names = no_words();
        push_word(&mut names, "this");
        push_word(&mut names, "killer");
        push_word(&mut names, "killer_player");
        Node::Keyword(names)
    }

    /// This value in generic form.
    pub fn to_instance(&self) -> (x: Instance)
        ensures
            x@ == self.datum(),
    {
        Instance::Keyword(
            match self {
                WhichEntity::This => 0,
                WhichEntity::Killer => 1,
                WhichEntity::KillerPlayer => 2,
            },
        )
    }

    /// The value that an instance stands for, if it stands for one.
    pub fn from_instance(x: &Instance) -> (r: Option<WhichEntity>)
        ensures
            match r {
                Some(t) => t.datum() == x@,
                None => !Self::valid(x@),
            },
    {
        match x {
            Instance::Keyword(i) => match *i {
                0 => Some(WhichEntity::This),
                1 => Some(WhichEntity::Killer),
                2 => Some(WhichEntity::KillerPlayer),
                _ => None,
            },
            _ => None,
        }
    }

    /// The reference to the definition of this type.
    pub open spec fn shape() -> Shape {
        Shape::Ref(WHICH_ENTITY as nat)
    }

    /// The node that refers to the definition of this type.
    pub fn node() -> (n: Node)
        ensures
            n.shape() == Self::shape(),
    {
        Node::Ref(WHICH_ENTITY)
    }

    /// Every value of this type is a value of its shape.
    pub proof fn lemma_conforms(&self, level: nat)
        ensures
            conforms(catalog(), level, Self::def_shape(), self.datum()),
            conforms(catalog(), catalog().len(), Self::shape(), self.datum()),
    {
        lemma_catalog();
        self.lemma_conforms_def(WHICH_ENTITY as nat);
        lemma_ref(catalog(), WHICH_ENTITY as nat, self.datum());
        self.lemma_conforms_def(level);
    }

    /// Every value of the shape of this type is the model of one of its values.
    pub proof fn lemma_fits(d: Datum, level: nat)
        requires
            conforms(catalog(), level, Self::def_shape(), d) || conforms(
                catalog(),
                level,
                Self::shape(),
                d,
            ),
        ensures
            Self::valid(d),
    {
        lemma_catalog();
        if conforms(catalog(), level, Self::def_shape(), d) {
            Self::lemma_fits_def(d, level);
        } else {
            lemma_unref(catalog(), level, WHICH_ENTITY as nat, d);
            Self::lemma_fits_def(d, WHICH_ENTITY as nat);
        }
    }

    proof fn lemma_conforms_def(&self, level: nat)
        ensures
            conforms(catalog(), level, Self::def_shape(), self.datum()),
    {
        reveal(WhichEntity::def_shape);
        assert(Self::names().len() == 3);
    }

    proof fn lemma_fits_def(d: Datum, level: nat)
        requires
            conforms(catalog(), level, Self::def_shape(), d),
        ensures
            Self::valid(d),
    {
        reveal(WhichEntity::def_shape);
        assert(Self::names().len() == 3);
    }

    /// Every value of this type can be written and read back as itself.
    pub proof fn lemma_legal(&self, level: nat)
        ensures
            legal(catalog(), level, Self::def_shape(), self.datum()),
            legal(catalog(), catalog().len(), Self::shape(), self.datum()),
            encode_spec(catalog(), level, Self::def_shape(), self.datum()) is String,
            encode_spec(catalog(), catalog().len(), Self::shape(), self.datum()) is String,
    {
        lemma_catalog();
        self.lemma_legal_def(WHICH_ENTITY as nat);
        lemma_written_by_reference(catalog(), catalog().len(), WHICH_ENTITY as nat, self.datum());
        self.lemma_legal_def(level);
    }

    proof fn lemma_legal_def(&self, level: nat)
        ensures
            legal(catalog(), level, Self::def_shape(), self.datum()),
            encode_spec(catalog(), level, Self::def_shape(), self.datum()) is String,
    {
        reveal(WhichEntity::def_shape);
        assert(Self::names().len() == 3);
    }
}

/// A condition of a loot table, of `/execute if predicate` or of a selector.
#[derive(Debug, PartialEq, Eq)]
#[non_exhaustive]
#[allow(inconsistent_fields)]
pub enum Predicate {
    Alternative {
        terms: Vec<Predicate>,
    },
    BlockStateProperty {
        block: String,
        properties: Vec<(String, String)>,
    },
    DamageSourceProperties {
        predicate: DamageSource,
    },
    EntityProperties {
        entity: WhichEntity,
        predicate: Box<Entity>,
    },
    EntityScores {
        entity: WhichEntity,
        scores: Vec<(String, Ranged2<i64, i64>)>,
    },
    Inverted {
        term: Box<Predicate>,
    },
    KilledByPlayer {
        inverse: bool,
    },
    LocationCheck {
        offset_x: Option<i64>,
        offset_y: Option<i64>,
        offset_z: Option<i64>,
        predicate: Box<Location>,
    },
    MatchTool {
        predicate: Box<Item>,
    },
    RandomChance {
        chance: Number,
    },
    RandomChanceWithLooting {
        chance: Number,
        looting_multiplier: Number,
    },
    Reference {
        name: String,
    },
    SurvivesExplosion,
    TableBonus {
        enchantment: i64,
        chances: Vec<Number>,
    },
    TimeCheck {
        value: Ranged2<i64, Either<i64, Box<NumberProvider<i64>>>>,
        period: Option<i64>,
    },
    WeatherCheck {
        raining: Option<bool>,
        thundering: Option<bool>,
    },
    ValueCheck {
        value: Either<i64, Box<NumberProvider<i64>>>,
        range: Ranged2<Either<i64, Box<NumberProvider<i64>>>, Either<i64, Box<NumberProvider<i64>>>>,
    },
}

impl Predicate {
    /// The model of this value.
    pub open spec fn datum(&self) -> Datum
        decreases self,
    {
        match self {
            Predicate::Alternative { terms } => Datum::Variant(
                0,
                Box::new(Datum::Record(Seq::empty().push(predicate_list_datum(*terms)))),
            ),
            Predicate::BlockStateProperty { block, properties } => Datum::Variant(
                1,
                Box::new(
                    Datum::Record(
                        Seq::empty().push(Datum::Text((*block)@)).push(text_map_datum(*properties))
                    )
                ),
            ),
            Predicate::DamageSourceProperties { predicate } => Datum::Variant(
                2,
                Box::new(Datum::Record(Seq::empty().push((*predicate).datum()))),
            ),
            Predicate::EntityProperties { entity, predicate } => Datum::Variant(
                3,
                Box::new(
                    Datum::Record(
                        Seq::empty().push((*entity).datum()).push((*(*predicate)).datum())
                    )
                ),
            ),
            Predicate::EntityScores { entity, scores } => Datum::Variant(
                4,
                Box::new(
                    Datum::Record(
                        Seq::empty().push((*entity).datum()).push(ranged_int_map_datum(*scores))
                    )
                ),
            ),
            Predicate::Inverted { term } => Datum::Variant(
                5,
                Box::new(Datum::Record(Seq::empty().push((*(*term)).datum()))),
            ),
            Predicate::KilledByPlayer { inverse } => Datum::Variant(
                6,
                Box::new(Datum::Record(Seq::empty().push(Datum::Bool(*inverse)))),
            ),
            Predicate::LocationCheck { offset_x, offset_y, offset_z, predicate } => Datum::Variant(
                7,
                Box::new(
                    Datum::Record(
                        Seq::empty()
                            .push(opt_int_datum(*offset_x))
                            .push(opt_int_datum(*offset_y))
                            .push(opt_int_datum(*offset_z))
                            .push((*(*predicate)).datum()),
                    ),
                ),
            ),
            Predicate::MatchTool { predicate } => Datum::Variant(
                8,
                Box::new(Datum::Record(Seq::empty().push((*(*predicate)).datum()))),
            ),
            Predicate::RandomChance { chance } => Datum::Variant(
                9,
                Box::new(Datum::Record(Seq::empty().push(Datum::Number(*chance)))),
            ),
            Predicate::RandomChanceWithLooting { chance, looting_multiplier } => Datum::Variant(
                10,
                Box::new(
                    Datum::Record(
                        Seq::empty().push(Datum::Number(*chance)).push(
                            Datum::Number(*looting_multiplier)
                        )
                    )
                ),
            ),
            Predicate::Reference { name } => Datum::Variant(
                11,
                Box::new(Datum::Record(Seq::empty().push(Datum::Text((*name)@)))),
            ),
            Predicate::SurvivesExplosion => Datum::Variant(
                12,
                Box::new(Datum::Record(Seq::empty())),
            ),
            Predicate::TableBonus { enchantment, chances } => Datum::Variant(
                13,
                Box::new(
                    Datum::Record(
                        Seq::empty().push(Datum::Int(*enchantment)).push(
                            number_list_datum(*chances)
                        )
                    )
                ),
            ),
            Predicate::TimeCheck { value, period } => Datum::Variant(
                14,
                Box::new(
                    Datum::Record(
                        Seq::empty()
                            .push(ranged_int_int_or_int_provider_datum(*value))
                            .push(opt_int_datum(*period)),
                    ),
                ),
            ),
            Predicate::WeatherCheck { raining, thundering } => Datum::Variant(
                15,
                Box::new(
                    Datum::Record(
                        Seq::empty().push(opt_bool_datum(*raining)).push(
                            opt_bool_datum(*thundering)
                        )
                    )
                ),
            ),
            Predicate::ValueCheck { value, range } => Datum::Variant(
                16,
                Box::new(
                    Datum::Record(
                        Seq::empty()
                            .push(int_or_int_provider_datum(*value))
                            .push(ranged_int_or_int_provider_datum(*range)),
                    ),
                ),
            ),
        }
    }

    /// Whether `d` is the model of a value of this type.
    pub open spec fn valid(d: Datum) -> bool
        decreases d,
    {
        d matches Datum::Variant(i, y) && if i == 0 {
            *y matches Datum::Record(vs) && vs.len() == 1 && predicate_list_valid(vs[0])
        } else if i == 1 {
            *y matches Datum::Record(vs) && vs.len() == 2 && vs[0] is Text && text_map_valid(vs[1])
        } else if i == 2 {
            *y matches Datum::Record(vs) && vs.len() == 1 && DamageSource::valid(vs[0])
        } else if i == 3 {
            *y matches Datum::Record(vs) && vs.len() == 2 && WhichEntity::valid(vs[0]) && Entity::valid(
                vs[1]
            )
        } else if i == 4 {
            *y matches Datum::Record(vs) && vs.len() == 2 && WhichEntity::valid(vs[0]) && ranged_int_map_valid(
                vs[1]
            )
        } else if i == 5 {
            *y matches Datum::Record(vs) && vs.len() == 1 && Predicate::valid(vs[0])
        } else if i == 6 {
            *y matches Datum::Record(vs) && vs.len() == 1 && vs[0] is Bool
        } else if i == 7 {
            *y matches Datum::Record(vs) && vs.len() == 4 && opt_int_valid(vs[0]) && opt_int_valid(vs[1]) && opt_int_valid(vs[2]) && Location::valid(
                vs[3]
            )
        } else if i == 8 {
            *y matches Datum::Record(vs) && vs.len() == 1 && Item::valid(vs[0])
        } else if i == 9 {
            *y matches Datum::Record(vs) && vs.len() == 1 && vs[0] is Number
        } else if i == 10 {
            *y matches Datum::Record(vs) && vs.len() == 2 && vs[0] is Number && vs[1] is Number
        } else if i == 11 {
            *y matches Datum::Record(vs) && vs.len() == 1 && vs[0] is Text
        } else if i == 12 {
            *y matches Datum::Record(vs) && vs.len() == 0
        } else if i == 13 {
            *y matches Datum::Record(vs) && vs.len() == 2 && vs[0] is Int && number_list_valid(
                vs[1]
            )
        } else if i == 14 {
            *y matches Datum::Record(vs) && vs.len() == 2 && ranged_int_int_or_int_provider_valid(vs[0]) && opt_int_valid(
                vs[1]
            )
        } else if i == 15 {
            *y matches Datum::Record(vs) && vs.len() == 2 && opt_bool_valid(vs[0]) && opt_bool_valid(
                vs[1]
            )
        } else if i == 16 {
            *y matches Datum::Record(vs) && vs.len() == 2 && int_or_int_provider_valid(vs[0]) && ranged_int_or_int_provider_valid(
                vs[1]
            )
        } else {
            false
        }
    }

    /// The fields of the variant `Alternative`.
    pub open spec fn alternative_fields() -> Seq<FieldShape> {
        Seq::empty().push(required("terms"@, predicate_list_shape()))
    }

    /// The fields of the variant `BlockStateProperty`.
    pub open spec fn block_state_property_fields() -> Seq<FieldShape> {
        Seq::empty()
            .push(required("block"@, Shape::Text))
            .push(
                defaulted("properties"@, text_map_shape(), Datum::Dict(Seq::empty()), Omit::IfEmpty)
            )
    }

    /// The fields of the variant `DamageSourceProperties`.
    pub open spec fn damage_source_properties_fields() -> Seq<FieldShape> {
        Seq::empty().push(required("predicate"@, DamageSource::shape()))
    }

    /// The fields of the variant `EntityProperties`.
    pub open spec fn entity_properties_fields() -> Seq<FieldShape> {
        Seq::empty()
            .push(required("entity"@, WhichEntity::shape()))
            .push(required("predicate"@, Entity::shape()))
    }

    /// The fields of the variant `EntityScores`.
    pub open spec fn entity_scores_fields() -> Seq<FieldShape> {
        Seq::empty()
            .push(required("entity"@, WhichEntity::shape()))
            .push(required("scores"@, ranged_int_map_shape()))
    }

    /// The fields of the variant `Inverted`.
    pub open spec fn inverted_fields() -> Seq<FieldShape> {
        Seq::empty().push(required("term"@, Predicate::shape()))
    }

    /// The fields of the variant `KilledByPlayer`.
    pub open spec fn killed_by_player_fields() -> Seq<FieldShape> {
        Seq::empty()
            .push(defaulted("inverse"@, Shape::Bool, Datum::Bool(false), Omit::IfDefault))
    }

    /// The fields of the variant `LocationCheck`.
    pub open spec fn location_check_fields() -> Seq<FieldShape> {
        Seq::empty()
            .push(defaulted("offsetX"@, opt_int_shape(), Datum::Absent, Omit::IfAbsent))
            .push(defaulted("offsetY"@, opt_int_shape(), Datum::Absent, Omit::IfAbsent))
            .push(defaulted("offsetZ"@, opt_int_shape(), Datum::Absent, Omit::IfAbsent))
            .push(required("predicate"@, Location::shape()))
    }

    /// The fields of the variant `MatchTool`.
    pub open spec fn match_tool_fields() -> Seq<FieldShape> {
        Seq::empty().push(required("predicate"@, Item::shape()))
    }

    /// The fields of the variant `RandomChance`.
    pub open spec fn random_chance_fields() -> Seq<FieldShape> {
        Seq::empty().push(required("chance"@, Shape::Number))
    }

    /// The fields of the variant `RandomChanceWithLooting`.
    pub open spec fn random_chance_with_looting_fields() -> Seq<FieldShape> {
        Seq::empty()
            .push(required("chance"@, Shape::Number))
            .push(required("looting_multiplier"@, Shape::Number))
    }

    /// The fields of the variant `Reference`.
    pub open spec fn reference_fields() -> Seq<FieldShape> {
        Seq::empty().push(required("name"@, Shape::Text))
    }

    /// The fields of the variant `SurvivesExplosion`.
    pub open spec fn survives_explosion_fields() -> Seq<FieldShape> {
        Seq::empty()
    }

    /// The fields of the variant `TableBonus`.
    pub open spec fn table_bonus_fields() -> Seq<FieldShape> {
        Seq::empty()
            .push(required("enchantment"@, Shape::Int))
            .push(required("chances"@, number_list_shape()))
    }

    /// The fields of the variant `TimeCheck`.
    pub open spec fn time_check_fields() -> Seq<FieldShape> {
        Seq::empty()
            .push(required("value"@, ranged_int_int_or_int_provider_shape()))
            .push(defaulted("period"@, opt_int_shape(), Datum::Absent, Omit::IfAbsent))
    }

    /// The fields of the variant `WeatherCheck`.
    pub open spec fn weather_check_fields() -> Seq<FieldShape> {
        Seq::empty()
            .push(defaulted("raining"@, opt_bool_shape(), Datum::Absent, Omit::IfAbsent))
            .push(defaulted("thundering"@, opt_bool_shape(), Datum::Absent, Omit::IfAbsent))
    }

    /// The fields of the variant `ValueCheck`.
    pub open spec fn value_check_fields() -> Seq<FieldShape> {
        Seq::empty()
            .push(required("value"@, int_or_int_provider_shape()))
            .push(required("range"@, ranged_int_or_int_provider_shape()))
    }

    /// The branches, each with the word that selects it.
    pub open spec fn branches() -> Seq<(Seq<char>, Shape)> {
        Seq::empty()
            .push(("alternative"@, Shape::Record(Self::alternative_fields())))
            .push(("block_state_property"@, Shape::Record(Self::block_state_property_fields())))
            .push(
                (
                    "damage_source_properties"@,
                    Shape::Record(Self::damage_source_properties_fields()),
                )
            )
            .push(("entity_properties"@, Shape::Record(Self::entity_properties_fields())))
            .push(("entity_scores"@, Shape::Record(Self::entity_scores_fields())))
            .push(("inverted"@, Shape::Record(Self::inverted_fields())))
            .push(("killed_by_player"@, Shape::Record(Self::killed_by_player_fields())))
            .push(("location_check"@, Shape::Record(Self::location_check_fields())))
            .push(("match_tool"@, Shape::Record(Self::match_tool_fields())))
            .push(("random_chance"@, Shape::Record(Self::random_chance_fields())))
            .push(
                (
                    "random_chance_with_looting"@,
                    Shape::Record(Self::random_chance_with_looting_fields()),
                )
            )
            .push(("reference"@, Shape::Record(Self::reference_fields())))
            .push(("survives_explosion"@, Shape::Record(Self::survives_explosion_fields())))
            .push(("table_bonus"@, Shape::Record(Self::table_bonus_fields())))
            .push(("time_check"@, Shape::Record(Self::time_check_fields())))
            .push(("weather_check"@, Shape::Record(Self::weather_check_fields())))
            .push(("value_check"@, Shape::Record(Self::value_check_fields())))
    }

    /// The shape of the documents of this type.
    #[verifier::opaque]
    pub open spec fn def_shape() -> Shape {
        Shape::Tagged { tag: "condition"@, content: None, branches: Self::branches() }
    }

    /// The node of the documents of this type.
    pub fn def_node() -> (n: Node)
        ensures
            n.shape() == Self::def_shape(),
    {
        reveal(Predicate::def_shape);
        let mut branches = no_branches();
        let n0 = {
            let mut fields = no_fields();
            push_field(&mut fields, field_required("terms", predicate_list_node()));
            Node::Record(fields)
        };
        push_branch(&mut branches, "alternative", n0);
        let n1 = {
            let mut fields = no_fields();
            push_field(&mut fields, field_required("block", text_node()));
            push_field(
                &mut fields,
                field_defaulted("properties", text_map_node(), empty_map(), Omit::IfEmpty),
            );
            Node::Record(fields)
        };
        push_branch(&mut branches, "block_state_property", n1);
        let n2 = {
            let mut fields = no_fields();
            push_field(&mut fields, field_required("predicate", DamageSource::node()));
            Node::Record(fields)
        };
        push_branch(&mut branches, "damage_source_properties", n2);
        let n3 = {
            let mut fields = no_fields();
            push_field(&mut fields, field_required("entity", WhichEntity::node()));
            push_field(&mut fields, field_required("predicate", Entity::node()));
            Node::Record(fields)
        };
        push_branch(&mut branches, "entity_properties", n3);
        let n4 = {
            let mut fields = no_fields();
            push_field(&mut fields, field_required("entity", WhichEntity::node()));
            push_field(&mut fields, field_required("scores", ranged_int_map_node()));
            Node::Record(fields)
        };
        push_branch(&mut branches, "entity_scores", n4);
        let n5 = {
            let mut fields = no_fields();
            push_field(&mut fields, field_required("term", Predicate::node()));
            Node::Record(fields)
        };
        push_branch(&mut branches, "inverted", n5);
        let n6 = {
            let mut fields = no_fields();
            push_field(
                &mut fields,
                field_defaulted("inverse", bool_node(), bool_to(&false), Omit::IfDefault),
            );
            Node::Record(fields)
        };
        push_branch(&mut branches, "killed_by_player", n6);
        let n7 = {
            let mut fields = no_fields();
            push_field(
                &mut fields,
                field_defaulted("offsetX", opt_int_node(), Instance::Absent, Omit::IfAbsent),
            );
            push_field(
                &mut fields,
                field_defaulted("offsetY", opt_int_node(), Instance::Absent, Omit::IfAbsent),
            );
            push_field(
                &mut fields,
                field_defaulted("offsetZ", opt_int_node(), Instance::Absent, Omit::IfAbsent),
            );
            push_field(&mut fields, field_required("predicate", Location::node()));
            Node::Record(fields)
        };
        push_branch(&mut branches, "location_check", n7);
        let n8 = {
            let mut fields = no_fields();
            push_field(&mut fields, field_required("predicate", Item::node()));
            Node::Record(fields)
        };
        push_branch(&mut branches, "match_tool", n8);
        let n9 = {
            let mut fields = no_fields();
            push_field(&mut fields, field_required("chance", number_node()));
            Node::Record(fields)
        };
        push_branch(&mut branches, "random_chance", n9);
        let n10 = {
            let mut fields = no_fields();
            push_field(&mut fields, field_required("chance", number_node()));
            push_field(&mut fields, field_required("looting_multiplier", number_node()));
            Node::Record(fields)
        };
        push_branch(&mut branches, "random_chance_with_looting", n10);
        let n11 = {
            let mut fields = no_fields();
            push_field(&mut fields, field_required("name", text_node()));
            Node::Record(fields)
        };
        push_branch(&mut branches, "reference", n11);
        let n12 = {
            let mut fields = no_fields();
            Node::Record(fields)
        };
        push_branch(&mut branches, "survives_explosion", n12);
        let n13 = {
            let mut fields = no_fields();
            push_field(&mut fields, field_required("enchantment", int_node()));
            push_field(&mut fields, field_required("chances", number_list_node()));
            Node::Record(fields)
        };
        push_branch(&mut branches, "table_bonus", n13);
        let n14 = {
            let mut fields = no_fields();
            push_field(&mut fields, field_required("value", ranged_int_int_or_int_provider_node()));
            push_field(
                &mut fields,
                field_defaulted("period", opt_int_node(), Instance::Absent, Omit::IfAbsent),
            );
            Node::Record(fields)
        };
        push_branch(&mut branches, "time_check", n14);
        let n15 = {
            let mut fields = no_fields();
            push_field(
                &mut fields,
                field_defaulted("raining", opt_bool_node(), Instance::Absent, Omit::IfAbsent),
            );
            push_field(
                &mut fields,
                field_defaulted("thundering", opt_bool_node(), Instance::Absent, Omit::IfAbsent),
            );
            Node::Record(fields)
        };
        push_branch(&mut branches, "weather_check", n15);
        let n16 = {
            let mut fields = no_fields();
            push_field(&mut fields, field_required("value", int_or_int_provider_node()));
            push_field(&mut fields, field_required("range", ranged_int_or_int_provider_node()));
            Node::Record(fields)
        };
        push_branch(&mut branches, "value_check", n16);
        Node::Tagged { tag: word("condition"), content: None, branches }
    }

    /// This value in generic form.
    pub fn to_instance(&self) -> (x: Instance)
        ensures
            x@ == self.datum(),
                decreases self,
    {
        match self {
            Predicate::Alternative { terms } => {
                let mut values = no_values();
                push_value(&mut values, predicate_list_to(terms));
                let payload = Instance::Record(values);
                assert(payload@ == Datum::Record(data(values@)));
                Instance::Variant(0, Box::new(payload))
            },
            Predicate::BlockStateProperty { block, properties } => {
                let mut values = no_values();
                push_value(&mut values, text_to(block));
                push_value(&mut values, text_map_to(properties));
                let payload = Instance::Record(values);
                assert(payload@ == Datum::Record(data(values@)));
                Instance::Variant(1, Box::new(payload))
            },
            Predicate::DamageSourceProperties { predicate } => {
                let mut values = no_values();
                push_value(&mut values, DamageSource::to_instance(predicate));
                let payload = Instance::Record(values);
                assert(payload@ == Datum::Record(data(values@)));
                Instance::Variant(2, Box::new(payload))
            },
            Predicate::EntityProperties { entity, predicate } => {
                let mut values = no_values();
                push_value(&mut values, WhichEntity::to_instance(entity));
                push_value(&mut values, Entity::to_instance(&**predicate));
                let payload = Instance::Record(values);
                assert(payload@ == Datum::Record(data(values@)));
                Instance::Variant(3, Box::new(payload))
            },
            Predicate::EntityScores { entity, scores } => {
                let mut values = no_values();
                push_value(&mut values, WhichEntity::to_instance(entity));
                push_value(&mut values, ranged_int_map_to(scores));
                let payload = Instance::Record(values);
                assert(payload@ == Datum::Record(data(values@)));
                Instance::Variant(4, Box::new(payload))
            },
            Predicate::Inverted { term } => {
                let mut values = no_values();
                push_value(&mut values, Predicate::to_instance(&**term));
                let payload = Instance::Record(values);
                assert(payload@ == Datum::Record(data(values@)));
                Instance::Variant(5, Box::new(payload))
            },
            Predicate::KilledByPlayer { inverse } => {
                let mut values = no_values();
                push_value(&mut values, bool_to(inverse));
                let payload = Instance::Record(values);
                assert(payload@ == Datum::Record(data(values@)));
                Instance::Variant(6, Box::new(payload))
            },
            Predicate::LocationCheck { offset_x, offset_y, offset_z, predicate } => {
                let mut values = no_values();
                push_value(&mut values, opt_int_to(offset_x));
                push_value(&mut values, opt_int_to(offset_y));
                push_value(&mut values, opt_int_to(offset_z));
                push_value(&mut values, Location::to_instance(&**predicate));
                let payload = Instance::Record(values);
                assert(payload@ == Datum::Record(data(values@)));
                Instance::Variant(7, Box::new(payload))
            },
            Predicate::MatchTool { predicate } => {
                let mut values = no_values();
                push_value(&mut values, Item::to_instance(&**predicate));
                let payload = Instance::Record(values);
                assert(payload@ == Datum::Record(data(values@)));
                Instance::Variant(8, Box::new(payload))
            },
            Predicate::RandomChance { chance } => {
                let mut values = no_values();
                push_value(&mut values, number_to(chance));
                let payload = Instance::Record(values);
                assert(payload@ == Datum::Record(data(values@)));
                Instance::Variant(9, Box::new(payload))
            },
            Predicate::RandomChanceWithLooting { chance, looting_multiplier } => {
                let mut values = no_values();
                push_value(&mut values, number_to(chance));
                push_value(&mut values, number_to(looting_multiplier));
                let payload = Instance::Record(values);
                assert(payload@ == Datum::Record(data(values@)));
                Instance::Variant(10, Box::new(payload))
            },
            Predicate::Reference { name } => {
                let mut values = no_values();
                push_value(&mut values, text_to(name));
                let payload = Instance::Record(values);
                assert(payload@ == Datum::Record(data(values@)));
                Instance::Variant(11, Box::new(payload))
            },
            Predicate::SurvivesExplosion => {
                let mut values = no_values();
                let payload = Instance::Record(values);
                assert(payload@ == Datum::Record(data(values@)));
                Instance::Variant(12, Box::new(payload))
            },
            Predicate::TableBonus { enchantment, chances } => {
                let mut values = no_values();
                push_value(&mut values, int_to(enchantment));
                push_value(&mut values, number_list_to(chances));
                let payload = Instance::Record(values);
                assert(payload@ == Datum::Record(data(values@)));
                Instance::Variant(13, Box::new(payload))
            },
            Predicate::TimeCheck { value, period } => {
                let mut values = no_values();
                push_value(&mut values, ranged_int_int_or_int_provider_to(value));
                push_value(&mut values, opt_int_to(period));
                let payload = Instance::Record(values);
                assert(payload@ == Datum::Record(data(values@)));
                Instance::Variant(14, Box::new(payload))
            },
            Predicate::WeatherCheck { raining, thundering } => {
                let mut values = no_values();
                push_value(&mut values, opt_bool_to(raining));
                push_value(&mut values, opt_bool_to(thundering));
                let payload = Instance::Record(values);
                assert(payload@ == Datum::Record(data(values@)));
                Instance::Variant(15, Box::new(payload))
            },
            Predicate::ValueCheck { value, range } => {
                let mut values = no_values();
                push_value(&mut values, int_or_int_provider_to(value));
                push_value(&mut values, ranged_int_or_int_provider_to(range));
                let payload = Instance::Record(values);
                assert(payload@ == Datum::Record(data(values@)));
                Instance::Variant(16, Box::new(payload))
            },
        }
    }

    /// The value that an instance stands for, if it stands for one.
    pub fn from_instance(x: &Instance) -> (r: Option<Predicate>)
        ensures
            match r {
                Some(t) => t.datum() == x@,
                None => !Self::valid(x@),
            },
                decreases x,
    {
        match x {
            Instance::Variant(i, y) => match *i {
                0 => match &**y {
                    Instance::Record(values) => {
                        assert(y.model() == Datum::Record(data(values@)));
                        if values.len() != 1 {
                            return None;
                        }
                        let f0 = match predicate_list_from(&values[0]) {
                            Some(v) => v,
                            None => {
                                assert(data(values@)[0] == values[0]@);
                                return None;
                            },
                        };
                        let t = Predicate::Alternative { terms: f0 };
                        assert(data(values@) =~= Seq::empty().push(predicate_list_datum(f0)));
                        Some(t)
                    },
                    _ => None,
                },
                1 => match &**y {
                    Instance::Record(values) => {
                        assert(y.model() == Datum::Record(data(values@)));
                        if values.len() != 2 {
                            return None;
                        }
                        let f0 = match text_from(&values[0]) {
                            Some(v) => v,
                            None => {
                                assert(data(values@)[0] == values[0]@);
                                return None;
                            },
                        };
                        let f1 = match text_map_from(&values[1]) {
                            Some(v) => v,
                            None => {
                                assert(data(values@)[1] == values[1]@);
                                return None;
                            },
                        };
                        let t = Predicate::BlockStateProperty { block: f0, properties: f1 };
                        assert(
                            data(values@) =~= Seq::empty().push(Datum::Text(f0@)).push(
                                text_map_datum(f1)
                            )
                        );
                        Some(t)
                    },
                    _ => None,
                },
                2 => match &**y {
                    Instance::Record(values) => {
                        assert(y.model() == Datum::Record(data(values@)));
                        if values.len() != 1 {
                            return None;
                        }
                        let f0 = match DamageSource::from_instance(&values[0]) {
                            Some(v) => v,
                            None => {
                                assert(data(values@)[0] == values[0]@);
                                return None;
                            },
                        };
                        let t = Predicate::DamageSourceProperties { predicate: f0 };
                        assert(data(values@) =~= Seq::empty().push(f0.datum()));
                        Some(t)
                    },
                    _ => None,
                },
                3 => match &**y {
                    Instance::Record(values) => {
                        assert(y.model() == Datum::Record(data(values@)));
                        if values.len() != 2 {
                            return None;
                        }
                        let f0 = match WhichEntity::from_instance(&values[0]) {
                            Some(v) => v,
                            None => {
                                assert(data(values@)[0] == values[0]@);
                                return None;
                            },
                        };
                        let f1 = match boxed(Entity::from_instance(&values[1])) {
                            Some(v) => v,
                            None => {
                                assert(data(values@)[1] == values[1]@);
                                return None;
                            },
                        };
                        let t = Predicate::EntityProperties { entity: f0, predicate: f1 };
                        assert(data(values@) =~= Seq::empty().push(f0.datum()).push((*f1).datum()));
                        Some(t)
                    },
                    _ => None,
                },
                4 => match &**y {
                    Instance::Record(values) => {
                        assert(y.model() == Datum::Record(data(values@)));
                        if values.len() != 2 {
                            return None;
                        }
                        let f0 = match WhichEntity::from_instance(&values[0]) {
                            Some(v) => v,
                            None => {
                                assert(data(values@)[0] == values[0]@);
                                return None;
                            },
                        };
                        let f1 = match ranged_int_map_from(&values[1]) {
                            Some(v) => v,
                            None => {
                                assert(data(values@)[1] == values[1]@);
                                return None;
                            },
                        };
                        let t = Predicate::EntityScores { entity: f0, scores: f1 };
                        assert(
                            data(values@) =~= Seq::empty().push(f0.datum()).push(
                                ranged_int_map_datum(f1)
                            )
                        );
                        Some(t)
                    },
                    _ => None,
                },
                5 => match &**y {
                    Instance::Record(values) => {
                        assert(y.model() == Datum::Record(data(values@)));
                        if values.len() != 1 {
                            return None;
                        }
                        let f0 = match boxed(Predicate::from_instance(&values[0])) {
                            Some(v) => v,
                            None => {
                                assert(data(values@)[0] == values[0]@);
                                return None;
                            },
                        };
                        let t = Predicate::Inverted { term: f0 };
                        assert(data(values@) =~= Seq::empty().push((*f0).datum()));
                        Some(t)
                    },
                    _ => None,
                },
                6 => match &**y {
                    Instance::Record(values) => {
                        assert(y.model() == Datum::Record(data(values@)));
                        if values.len() != 1 {
                            return None;
                        }
                        let f0 = match bool_from(&values[0]) {
                            Some(v) => v,
                            None => {
                                assert(data(values@)[0] == values[0]@);
                                return None;
                            },
                        };
                        let t = Predicate::KilledByPlayer { inverse: f0 };
                        assert(data(values@) =~= Seq::empty().push(Datum::Bool(f0)));
                        Some(t)
                    },
                    _ => None,
                },
                7 => match &**y {
                    Instance::Record(values) => {
                        assert(y.model() == Datum::Record(data(values@)));
                        if values.len() != 4 {
                            return None;
                        }
                        let f0 = match opt_int_from(&values[0]) {
                            Some(v) => v,
                            None => {
                                assert(data(values@)[0] == values[0]@);
                                return None;
                            },
                        };
                        let f1 = match opt_int_from(&values[1]) {
                            Some(v) => v,
                            None => {
                                assert(data(values@)[1] == values[1]@);
                                return None;
                            },
                        };
                        let f2 = match opt_int_from(&values[2]) {
                            Some(v) => v,
                            None => {
                                assert(data(values@)[2] == values[2]@);
                                return None;
                            },
                        };
                        let f3 = match boxed(Location::from_instance(&values[3])) {
                            Some(v) => v,
                            None => {
                                assert(data(values@)[3] == values[3]@);
                                return None;
                            },
                        };
                        let t = Predicate::LocationCheck { offset_x: f0, offset_y: f1, offset_z: f2, predicate: f3 };
                        assert(
                            data(values@) =~= Seq::empty()
                                .push(opt_int_datum(f0))
                                .push(opt_int_datum(f1))
                                .push(opt_int_datum(f2))
                                .push((*f3).datum())
                        );
                        Some(t)
                    },
                    _ => None,
                },
                8 => match &**y {
                    Instance::Record(values) => {
                        assert(y.model() == Datum::Record(data(values@)));
                        if values.len() != 1 {
                            return None;
                        }
                        let f0 = match boxed(Item::from_instance(&values[0])) {
                            Some(v) => v,
                            None => {
                                assert(data(values@)[0] == values[0]@);
                                return None;
                            },
                        };
                        let t = Predicate::MatchTool { predicate: f0 };
                        assert(data(values@) =~= Seq::empty().push((*f0).datum()));
                        Some(t)
                    },
                    _ => None,
                },
                9 => match &**y {
                    Instance::Record(values) => {
                        assert(y.model() == Datum::Record(data(values@)));
                        if values.len() != 1 {
                            return None;
                        }
                        let f0 = match number_from(&values[0]) {
                            Some(v) => v,
                            None => {
                                assert(data(values@)[0] == values[0]@);
                                return None;
                            },
                        };
                        let t = Predicate::RandomChance { chance: f0 };
                        assert(data(values@) =~= Seq::empty().push(Datum::Number(f0)));
                        Some(t)
                    },
                    _ => None,
                },
                10 => match &**y {
                    Instance::Record(values) => {
                        assert(y.model() == Datum::Record(data(values@)));
                        if values.len() != 2 {
                            return None;
                        }
                        let f0 = match number_from(&values[0]) {
                            Some(v) => v,
                            None => {
                                assert(data(values@)[0] == values[0]@);
                                return None;
                            },
                        };
                        let f1 = match number_from(&values[1]) {
                            Some(v) => v,
                            None => {
                                assert(data(values@)[1] == values[1]@);
                                return None;
                            },
                        };
                        let t = Predicate::RandomChanceWithLooting { chance: f0, looting_multiplier: f1 };
                        assert(
                            data(values@) =~= Seq::empty().push(Datum::Number(f0)).push(
                                Datum::Number(f1)
                            )
                        );
                        Some(t)
                    },
                    _ => None,
                },
                11 => match &**y {
                    Instance::Record(values) => {
                        assert(y.model() == Datum::Record(data(values@)));
                        if values.len() != 1 {
                            return None;
                        }
                        let f0 = match text_from(&values[0]) {
                            Some(v) => v,
                            None => {
                                assert(data(values@)[0] == values[0]@);
                                return None;
                            },
                        };
                        let t = Predicate::Reference { name: f0 };
                        assert(data(values@) =~= Seq::empty().push(Datum::Text(f0@)));
                        Some(t)
                    },
                    _ => None,
                },
                12 => match &**y {
                    Instance::Record(values) => {
                        assert(y.model() == Datum::Record(data(values@)));
                        if values.len() != 0 {
                            return None;
                        }
                        let t = Predicate::SurvivesExplosion;
                        assert(data(values@) =~= Seq::empty());
                        Some(t)
                    },
                    _ => None,
                },
                13 => match &**y {
                    Instance::Record(values) => {
                        assert(y.model() == Datum::Record(data(values@)));
                        if values.len() != 2 {
                            return None;
                        }
                        let f0 = match int_from(&values[0]) {
                            Some(v) => v,
                            None => {
                                assert(data(values@)[0] == values[0]@);
                                return None;
                            },
                        };
                        let f1 = match number_list_from(&values[1]) {
                            Some(v) => v,
                            None => {
                                assert(data(values@)[1] == values[1]@);
                                return None;
                            },
                        };
                        let t = Predicate::TableBonus { enchantment: f0, chances: f1 };
                        assert(
                            data(values@) =~= Seq::empty().push(Datum::Int(f0)).push(
                                number_list_datum(f1)
                            )
                        );
                        Some(t)
                    },
                    _ => None,
                },
                14 => match &**y {
                    Instance::Record(values) => {
                        assert(y.model() == Datum::Record(data(values@)));
                        if values.len() != 2 {
                            return None;
                        }
                        let f0 = match ranged_int_int_or_int_provider_from(&values[0]) {
                            Some(v) => v,
                            None => {
                                assert(data(values@)[0] == values[0]@);
                                return None;
                            },
                        };
                        let f1 = match opt_int_from(&values[1]) {
                            Some(v) => v,
                            None => {
                                assert(data(values@)[1] == values[1]@);
                                return None;
                            },
                        };
                        let t = Predicate::TimeCheck { value: f0, period: f1 };
                        assert(
                            data(values@) =~= Seq::empty().push(ranged_int_int_or_int_provider_datum(f0)).push(
                                opt_int_datum(f1)
                            )
                        );
                        Some(t)
                    },
                    _ => None,
                },
                15 => match &**y {
                    Instance::Record(values) => {
                        assert(y.model() == Datum::Record(data(values@)));
                        if values.len() != 2 {
                            return None;
                        }
                        let f0 = match opt_bool_from(&values[0]) {
                            Some(v) => v,
                            None => {
                                assert(data(values@)[0] == values[0]@);
                                return None;
                            },
                        };
                        let f1 = match opt_bool_from(&values[1]) {
                            Some(v) => v,
                            None => {
                                assert(data(values@)[1] == values[1]@);
                                return None;
                            },
                        };
                        let t = Predicate::WeatherCheck { raining: f0, thundering: f1 };
                        assert(
                            data(values@) =~= Seq::empty().push(opt_bool_datum(f0)).push(
                                opt_bool_datum(f1)
                            )
                        );
                        Some(t)
                    },
                    _ => None,
                },
                16 => match &**y {
                    Instance::Record(values) => {
                        assert(y.model() == Datum::Record(data(values@)));
                        if values.len() != 2 {
                            return None;
                        }
                        let f0 = match int_or_int_provider_from(&values[0]) {
                            Some(v) => v,
                            None => {
                                assert(data(values@)[0] == values[0]@);
                                return None;
                            },
                        };
                        let f1 = match ranged_int_or_int_provider_from(&values[1]) {
                            Some(v) => v,
                            None => {
                                assert(data(values@)[1] == values[1]@);
                                return None;
                            },
                        };
                        let t = Predicate::ValueCheck { value: f0, range: f1 };
                        assert(
                            data(values@) =~= Seq::empty()
                                .push(int_or_int_provider_datum(f0))
                                .push(ranged_int_or_int_provider_datum(f1))
                        );
                        Some(t)
                    },
                    _ => None,
                },
                _ => None,
            },
            _ => None,
        }
    }

    /// The reference to the definition of this type.
    pub open spec fn shape() -> Shape {
        Shape::Ref(PREDICATE as nat)
    }

    /// The node that refers to the definition of this type.
    pub fn node() -> (n: Node)
        ensures
            n.shape() == Self::shape(),
    {
        Node::Ref(PREDICATE)
    }

    /// Every value of this type is a value of its shape.
    pub proof fn lemma_conforms(&self, level: nat)
        ensures
            conforms(catalog(), level, Self::def_shape(), self.datum()),
            conforms(catalog(), catalog().len(), Self::shape(), self.datum()),
        decreases self, 1nat,
    {
        lemma_catalog();
        self.lemma_conforms_def(PREDICATE as nat);
        lemma_ref(catalog(), PREDICATE as nat, self.datum());
        self.lemma_conforms_def(level);
    }

    /// Every value of the shape of this type is the model of one of its values.
    pub proof fn lemma_fits(d: Datum, level: nat)
        requires
            conforms(catalog(), level, Self::def_shape(), d) || conforms(
                catalog(),
                level,
                Self::shape(),
                d,
            ),
        ensures
            Self::valid(d),
        decreases d, 1nat,
    {
        lemma_catalog();
        if conforms(catalog(), level, Self::def_shape(), d) {
            Self::lemma_fits_def(d, level);
        } else {
            lemma_unref(catalog(), level, PREDICATE as nat, d);
            Self::lemma_fits_def(d, PREDICATE as nat);
        }
    }

    proof fn lemma_conforms_def(&self, level: nat)
        ensures
            conforms(catalog(), level, Self::def_shape(), self.datum()),
                decreases self, 0nat,
    {
        reveal(Predicate::def_shape);
        match self {
            Predicate::Alternative { terms } => {
                assert(Self::branches()[0].1 == Shape::Record(Self::alternative_fields()));
                let fs0 = Seq::<FieldShape>::empty();
                let vs0 = Seq::<Datum>::empty();
                lemma_no_fields(catalog(), level);
                predicate_list_conforms((*terms), catalog().len());
                lemma_more_fields(
                    catalog(),
                    level,
                    fs0,
                    vs0,
                    required("terms"@, predicate_list_shape()),
                    predicate_list_datum(*terms),
                );
                let fs1 = fs0.push(required("terms"@, predicate_list_shape()));
                let vs1 = vs0.push(predicate_list_datum(*terms));
                lemma_record(catalog(), level, fs1, vs1);
            },
            Predicate::BlockStateProperty { block, properties } => {
                assert(Self::branches()[1].1 == Shape::Record(Self::block_state_property_fields()));
                let fs0 = Seq::<FieldShape>::empty();
                let vs0 = Seq::<Datum>::empty();
                lemma_no_fields(catalog(), level);
                lemma_plain(catalog(), catalog().len(), Datum::Text((*block)@));
                lemma_more_fields(
                    catalog(),
                    level,
                    fs0,
                    vs0,
                    required("block"@, Shape::Text),
                    Datum::Text((*block)@),
                );
                let fs1 = fs0.push(required("block"@, Shape::Text));
                let vs1 = vs0.push(Datum::Text((*block)@));
                text_map_conforms((*properties), catalog().len());
                lemma_more_fields(
                    catalog(),
                    level,
                    fs1,
                    vs1,
                    defaulted(
                        "properties"@,
                        text_map_shape(),
                        Datum::Dict(Seq::empty()),
                        Omit::IfEmpty,
                    ),
                    text_map_datum(*properties),
                );
                let fs2 = fs1.push(
                    defaulted(
                        "properties"@,
                        text_map_shape(),
                        Datum::Dict(Seq::empty()),
                        Omit::IfEmpty,
                    )
                );
                let vs2 = vs1.push(text_map_datum(*properties));
                lemma_record(catalog(), level, fs2, vs2);
            },
            Predicate::DamageSourceProperties { predicate } => {
                assert(
                    Self::branches()[2].1 == Shape::Record(Self::damage_source_properties_fields())
                );
                let fs0 = Seq::<FieldShape>::empty();
                let vs0 = Seq::<Datum>::empty();
                lemma_no_fields(catalog(), level);
                (*predicate).lemma_conforms(catalog().len());
                lemma_more_fields(
                    catalog(),
                    level,
                    fs0,
                    vs0,
                    required("predicate"@, DamageSource::shape()),
                    (*predicate).datum(),
                );
                let fs1 = fs0.push(required("predicate"@, DamageSource::shape()));
                let vs1 = vs0.push((*predicate).datum());
                lemma_record(catalog(), level, fs1, vs1);
            },
            Predicate::EntityProperties { entity, predicate } => {
                assert(Self::branches()[3].1 == Shape::Record(Self::entity_properties_fields()));
                let fs0 = Seq::<FieldShape>::empty();
                let vs0 = Seq::<Datum>::empty();
                lemma_no_fields(catalog(), level);
                (*entity).lemma_conforms(catalog().len());
                lemma_more_fields(
                    catalog(),
                    level,
                    fs0,
                    vs0,
                    required("entity"@, WhichEntity::shape()),
                    (*entity).datum(),
                );
                let fs1 = fs0.push(required("entity"@, WhichEntity::shape()));
                let vs1 = vs0.push((*entity).datum());
                (*(*predicate)).lemma_conforms(catalog().len());
                lemma_more_fields(
                    catalog(),
                    level,
                    fs1,
                    vs1,
                    required("predicate"@, Entity::shape()),
                    (*(*predicate)).datum(),
                );
                let fs2 = fs1.push(required("predicate"@, Entity::shape()));
                let vs2 = vs1.push((*(*predicate)).datum());
                lemma_record(catalog(), level, fs2, vs2);
            },
            Predicate::EntityScores { entity, scores } => {
                assert(Self::branches()[4].1 == Shape::Record(Self::entity_scores_fields()));
                let fs0 = Seq::<FieldShape>::empty();
                let vs0 = Seq::<Datum>::empty();
                lemma_no_fields(catalog(), level);
                (*entity).lemma_conforms(catalog().len());
                lemma_more_fields(
                    catalog(),
                    level,
                    fs0,
                    vs0,
                    required("entity"@, WhichEntity::shape()),
                    (*entity).datum(),
                );
                let fs1 = fs0.push(required("entity"@, WhichEntity::shape()));
                let vs1 = vs0.push((*entity).datum());
                ranged_int_map_conforms((*scores), catalog().len());
                lemma_more_fields(
                    catalog(),
                    level,
                    fs1,
                    vs1,
                    required("scores"@, ranged_int_map_shape()),
                    ranged_int_map_datum(*scores),
                );
                let fs2 = fs1.push(required("scores"@, ranged_int_map_shape()));
                let vs2 = vs1.push(ranged_int_map_datum(*scores));
                lemma_record(catalog(), level, fs2, vs2);
            },
            Predicate::Inverted { term } => {
                assert(Self::branches()[5].1 == Shape::Record(Self::inverted_fields()));
                let fs0 = Seq::<FieldShape>::empty();
                let vs0 = Seq::<Datum>::empty();
                lemma_no_fields(catalog(), level);
                (*(*term)).lemma_conforms(catalog().len());
                lemma_more_fields(
                    catalog(),
                    level,
                    fs0,
                    vs0,
                    required("term"@, Predicate::shape()),
                    (*(*term)).datum(),
                );
                let fs1 = fs0.push(required("term"@, Predicate::shape()));
                let vs1 = vs0.push((*(*term)).datum());
                lemma_record(catalog(), level, fs1, vs1);
            },
            Predicate::KilledByPlayer { inverse } => {
                assert(Self::branches()[6].1 == Shape::Record(Self::killed_by_player_fields()));
                let fs0 = Seq::<FieldShape>::empty();
                let vs0 = Seq::<Datum>::empty();
                lemma_no_fields(catalog(), level);
                lemma_plain(catalog(), catalog().len(), Datum::Bool((*inverse)));
                lemma_more_fields(
                    catalog(),
                    level,
                    fs0,
                    vs0,
                    defaulted("inverse"@, Shape::Bool, Datum::Bool(false), Omit::IfDefault),
                    Datum::Bool(*inverse),
                );
                let fs1 = fs0.push(
                    defaulted("inverse"@, Shape::Bool, Datum::Bool(false), Omit::IfDefault)
                );
                let vs1 = vs0.push(Datum::Bool(*inverse));
                lemma_record(catalog(), level, fs1, vs1);
            },
            Predicate::LocationCheck { offset_x, offset_y, offset_z, predicate } => {
                assert(Self::branches()[7].1 == Shape::Record(Self::location_check_fields()));
                let fs0 = Seq::<FieldShape>::empty();
                let vs0 = Seq::<Datum>::empty();
                lemma_no_fields(catalog(), level);
                opt_int_conforms((*offset_x), catalog().len());
                lemma_more_fields(
                    catalog(),
                    level,
                    fs0,
                    vs0,
                    defaulted("offsetX"@, opt_int_shape(), Datum::Absent, Omit::IfAbsent),
                    opt_int_datum(*offset_x),
                );
                let fs1 = fs0.push(
                    defaulted("offsetX"@, opt_int_shape(), Datum::Absent, Omit::IfAbsent)
                );
                let vs1 = vs0.push(opt_int_datum(*offset_x));
                opt_int_conforms((*offset_y), catalog().len());
                lemma_more_fields(
                    catalog(),
                    level,
                    fs1,
                    vs1,
                    defaulted("offsetY"@, opt_int_shape(), Datum::Absent, Omit::IfAbsent),
                    opt_int_datum(*offset_y),
                );
                let fs2 = fs1.push(
                    defaulted("offsetY"@, opt_int_shape(), Datum::Absent, Omit::IfAbsent)
                );
                let vs2 = vs1.push(opt_int_datum(*offset_y));
                opt_int_conforms((*offset_z), catalog().len());
                lemma_more_fields(
                    catalog(),
                    level,
                    fs2,
                    vs2,
                    defaulted("offsetZ"@, opt_int_shape(), Datum::Absent, Omit::IfAbsent),
                    opt_int_datum(*offset_z),
                );
                let fs3 = fs2.push(
                    defaulted("offsetZ"@, opt_int_shape(), Datum::Absent, Omit::IfAbsent)
                );
                let vs3 = vs2.push(opt_int_datum(*offset_z));
                (*(*predicate)).lemma_conforms(catalog().len());
                lemma_more_fields(
                    catalog(),
                    level,
                    fs3,
                    vs3,
                    required("predicate"@, Location::shape()),
                    (*(*predicate)).datum(),
                );
                let fs4 = fs3.push(required("predicate"@, Location::shape()));
                let vs4 = vs3.push((*(*predicate)).datum());
                lemma_record(catalog(), level, fs4, vs4);
            },
            Predicate::MatchTool { predicate } => {
                assert(Self::branches()[8].1 == Shape::Record(Self::match_tool_fields()));
                let fs0 = Seq::<FieldShape>::empty();
                let vs0 = Seq::<Datum>::empty();
                lemma_no_fields(catalog(), level);
                (*(*predicate)).lemma_conforms(catalog().len());
                lemma_more_fields(
                    catalog(),
                    level,
                    fs0,
                    vs0,
                    required("predicate"@, Item::shape()),
                    (*(*predicate)).datum(),
                );
                let fs1 = fs0.push(required("predicate"@, Item::shape()));
                let vs1 = vs0.push((*(*predicate)).datum());
                lemma_record(catalog(), level, fs1, vs1);
            },
            Predicate::RandomChance { chance } => {
                assert(Self::branches()[9].1 == Shape::Record(Self::random_chance_fields()));
                let fs0 = Seq::<FieldShape>::empty();
                let vs0 = Seq::<Datum>::empty();
                lemma_no_fields(catalog(), level);
                lemma_plain(catalog(), catalog().len(), Datum::Number((*chance)));
                lemma_more_fields(
                    catalog(),
                    level,
                    fs0,
                    vs0,
                    required("chance"@, Shape::Number),
                    Datum::Number(*chance),
                );
                let fs1 = fs0.push(required("chance"@, Shape::Number));
                let vs1 = vs0.push(Datum::Number(*chance));
                lemma_record(catalog(), level, fs1, vs1);
            },
            Predicate::RandomChanceWithLooting { chance, looting_multiplier } => {
                assert(
                    Self::branches()[10].1 == Shape::Record(
                        Self::random_chance_with_looting_fields()
                    )
                );
                let fs0 = Seq::<FieldShape>::empty();
                let vs0 = Seq::<Datum>::empty();
                lemma_no_fields(catalog(), level);
                lemma_plain(catalog(), catalog().len(), Datum::Number((*chance)));
                lemma_more_fields(
                    catalog(),
                    level,
                    fs0,
                    vs0,
                    required("chance"@, Shape::Number),
                    Datum::Number(*chance),
                );
                let fs1 = fs0.push(required("chance"@, Shape::Number));
                let vs1 = vs0.push(Datum::Number(*chance));
                lemma_plain(catalog(), catalog().len(), Datum::Number((*looting_multiplier)));
                lemma_more_fields(
                    catalog(),
                    level,
                    fs1,
                    vs1,
                    required("looting_multiplier"@, Shape::Number),
                    Datum::Number(*looting_multiplier),
                );
                let fs2 = fs1.push(required("looting_multiplier"@, Shape::Number));
                let vs2 = vs1.push(Datum::Number(*looting_multiplier));
                lemma_record(catalog(), level, fs2, vs2);
            },
            Predicate::Reference { name } => {
                assert(Self::branches()[11].1 == Shape::Record(Self::reference_fields()));
                let fs0 = Seq::<FieldShape>::empty();
                let vs0 = Seq::<Datum>::empty();
                lemma_no_fields(catalog(), level);
                lemma_plain(catalog(), catalog().len(), Datum::Text((*name)@));
                lemma_more_fields(
                    catalog(),
                    level,
                    fs0,
                    vs0,
                    required("name"@, Shape::Text),
                    Datum::Text((*name)@),
                );
                let fs1 = fs0.push(required("name"@, Shape::Text));
                let vs1 = vs0.push(Datum::Text((*name)@));
                lemma_record(catalog(), level, fs1, vs1);
            },
            Predicate::SurvivesExplosion => {
                assert(Self::branches()[12].1 == Shape::Record(Self::survives_explosion_fields()));
                let fs0 = Seq::<FieldShape>::empty();
                let vs0 = Seq::<Datum>::empty();
                lemma_no_fields(catalog(), level);
                lemma_record(catalog(), level, fs0, vs0);
            },
            Predicate::TableBonus { enchantment, chances } => {
                assert(Self::branches()[13].1 == Shape::Record(Self::table_bonus_fields()));
                let fs0 = Seq::<FieldShape>::empty();
                let vs0 = Seq::<Datum>::empty();
                lemma_no_fields(catalog(), level);
                lemma_plain(catalog(), catalog().len(), Datum::Int((*enchantment)));
                lemma_more_fields(
                    catalog(),
                    level,
                    fs0,
                    vs0,
                    required("enchantment"@, Shape::Int),
                    Datum::Int(*enchantment),
                );
                let fs1 = fs0.push(required("enchantment"@, Shape::Int));
                let vs1 = vs0.push(Datum::Int(*enchantment));
                number_list_conforms((*chances), catalog().len());
                lemma_more_fields(
                    catalog(),
                    level,
                    fs1,
                    vs1,
                    required("chances"@, number_list_shape()),
                    number_list_datum(*chances),
                );
                let fs2 = fs1.push(required("chances"@, number_list_shape()));
                let vs2 = vs1.push(number_list_datum(*chances));
                lemma_record(catalog(), level, fs2, vs2);
            },
            Predicate::TimeCheck { value, period } => {
                assert(Self::branches()[14].1 == Shape::Record(Self::time_check_fields()));
                let fs0 = Seq::<FieldShape>::empty();
                let vs0 = Seq::<Datum>::empty();
                lemma_no_fields(catalog(), level);
                ranged_int_int_or_int_provider_conforms((*value), catalog().len());
                lemma_more_fields(
                    catalog(),
                    level,
                    fs0,
                    vs0,
                    required("value"@, ranged_int_int_or_int_provider_shape()),
                    ranged_int_int_or_int_provider_datum(*value),
                );
                let fs1 = fs0.push(required("value"@, ranged_int_int_or_int_provider_shape()));
                let vs1 = vs0.push(ranged_int_int_or_int_provider_datum(*value));
                opt_int_conforms((*period), catalog().len());
                lemma_more_fields(
                    catalog(),
                    level,
                    fs1,
                    vs1,
                    defaulted("period"@, opt_int_shape(), Datum::Absent, Omit::IfAbsent),
                    opt_int_datum(*period),
                );
                let fs2 = fs1.push(
                    defaulted("period"@, opt_int_shape(), Datum::Absent, Omit::IfAbsent)
                );
                let vs2 = vs1.push(opt_int_datum(*period));
                lemma_record(catalog(), level, fs2, vs2);
            },
            Predicate::WeatherCheck { raining, thundering } => {
                assert(Self::branches()[15].1 == Shape::Record(Self::weather_check_fields()));
                let fs0 = Seq::<FieldShape>::empty();
                let vs0 = Seq::<Datum>::empty();
                lemma_no_fields(catalog(), level);
                opt_bool_conforms((*raining), catalog().len());
                lemma_more_fields(
                    catalog(),
                    level,
                    fs0,
                    vs0,
                    defaulted("raining"@, opt_bool_shape(), Datum::Absent, Omit::IfAbsent),
                    opt_bool_datum(*raining),
                );
                let fs1 = fs0.push(
                    defaulted("raining"@, opt_bool_shape(), Datum::Absent, Omit::IfAbsent)
                );
                let vs1 = vs0.push(opt_bool_datum(*raining));
                opt_bool_conforms((*thundering), catalog().len());
                lemma_more_fields(
                    catalog(),
                    level,
                    fs1,
                    vs1,
                    defaulted("thundering"@, opt_bool_shape(), Datum::Absent, Omit::IfAbsent),
                    opt_bool_datum(*thundering),
                );
                let fs2 = fs1.push(
                    defaulted("thundering"@, opt_bool_shape(), Datum::Absent, Omit::IfAbsent)
                );
                let vs2 = vs1.push(opt_bool_datum(*thundering));
                lemma_record(catalog(), level, fs2, vs2);
            },
            Predicate::ValueCheck { value, range } => {
                assert(Self::branches()[16].1 == Shape::Record(Self::value_check_fields()));
                let fs0 = Seq::<FieldShape>::empty();
                let vs0 = Seq::<Datum>::empty();
                lemma_no_fields(catalog(), level);
                int_or_int_provider_conforms((*value), catalog().len());
                lemma_more_fields(
                    catalog(),
                    level,
                    fs0,
                    vs0,
                    required("value"@, int_or_int_provider_shape()),
                    int_or_int_provider_datum(*value),
                );
                let fs1 = fs0.push(required("value"@, int_or_int_provider_shape()));
                let vs1 = vs0.push(int_or_int_provider_datum(*value));
                ranged_int_or_int_provider_conforms((*range), catalog().len());
                lemma_more_fields(
                    catalog(),
                    level,
                    fs1,
                    vs1,
                    required("range"@, ranged_int_or_int_provider_shape()),
                    ranged_int_or_int_provider_datum(*range),
                );
                let fs2 = fs1.push(required("range"@, ranged_int_or_int_provider_shape()));
                let vs2 = vs1.push(ranged_int_or_int_provider_datum(*range));
                lemma_record(catalog(), level, fs2, vs2);
            },
        }
    }

    proof fn lemma_fits_def(d: Datum, level: nat)
        requires
            conforms(catalog(), level, Self::def_shape(), d),
        ensures
            Self::valid(d),
                decreases d, 0nat,
    {
        reveal(Predicate::def_shape);
        let i = d->Variant_0;
        let y = *d->Variant_1;
        if i == 0 {
            assert(Self::branches()[0].1 == Shape::Record(Self::alternative_fields()));
            assert(conforms(catalog(), level, Shape::Record(Self::alternative_fields()), y));
            let fields = Self::alternative_fields();
            let vs = y->Record_0;
            lemma_field(catalog(), level, fields, y, 0);
            assert(fields[0] == required("terms"@, predicate_list_shape()));
            predicate_list_fits(vs[0], catalog().len());
        } else if i == 1 {
            assert(Self::branches()[1].1 == Shape::Record(Self::block_state_property_fields()));
            assert(
                conforms(catalog(), level, Shape::Record(Self::block_state_property_fields()), y)
            );
            let fields = Self::block_state_property_fields();
            let vs = y->Record_0;
            lemma_field(catalog(), level, fields, y, 0);
            assert(fields[0] == required("block"@, Shape::Text));
            lemma_plain(catalog(), catalog().len(), vs[0]);
            lemma_field(catalog(), level, fields, y, 1);
            assert(
                fields[1] == defaulted(
                    "properties"@,
                    text_map_shape(),
                    Datum::Dict(Seq::empty()),
                    Omit::IfEmpty,
                )
            );
            text_map_fits(vs[1], catalog().len());
        } else if i == 2 {
            assert(Self::branches()[2].1 == Shape::Record(Self::damage_source_properties_fields()));
            assert(
                conforms(
                    catalog(),
                    level,
                    Shape::Record(Self::damage_source_properties_fields()),
                    y,
                )
            );
            let fields = Self::damage_source_properties_fields();
            let vs = y->Record_0;
            lemma_field(catalog(), level, fields, y, 0);
            assert(fields[0] == required("predicate"@, DamageSource::shape()));
            DamageSource::lemma_fits(vs[0], catalog().len());
        } else if i == 3 {
            assert(Self::branches()[3].1 == Shape::Record(Self::entity_properties_fields()));
            assert(conforms(catalog(), level, Shape::Record(Self::entity_properties_fields()), y));
            let fields = Self::entity_properties_fields();
            let vs = y->Record_0;
            lemma_field(catalog(), level, fields, y, 0);
            assert(fields[0] == required("entity"@, WhichEntity::shape()));
            WhichEntity::lemma_fits(vs[0], catalog().len());
            lemma_field(catalog(), level, fields, y, 1);
            assert(fields[1] == required("predicate"@, Entity::shape()));
            Entity::lemma_fits(vs[1], catalog().len());
        } else if i == 4 {
            assert(Self::branches()[4].1 == Shape::Record(Self::entity_scores_fields()));
            assert(conforms(catalog(), level, Shape::Record(Self::entity_scores_fields()), y));
            let fields = Self::entity_scores_fields();
            let vs = y->Record_0;
            lemma_field(catalog(), level, fields, y, 0);
            assert(fields[0] == required("entity"@, WhichEntity::shape()));
            WhichEntity::lemma_fits(vs[0], catalog().len());
            lemma_field(catalog(), level, fields, y, 1);
            assert(fields[1] == required("scores"@, ranged_int_map_shape()));
            ranged_int_map_fits(vs[1], catalog().len());
        } else if i == 5 {
            assert(Self::branches()[5].1 == Shape::Record(Self::inverted_fields()));
            assert(conforms(catalog(), level, Shape::Record(Self::inverted_fields()), y));
            let fields = Self::inverted_fields();
            let vs = y->Record_0;
            lemma_field(catalog(), level, fields, y, 0);
            assert(fields[0] == required("term"@, Predicate::shape()));
            Predicate::lemma_fits(vs[0], catalog().len());
        } else if i == 6 {
            assert(Self::branches()[6].1 == Shape::Record(Self::killed_by_player_fields()));
            assert(conforms(catalog(), level, Shape::Record(Self::killed_by_player_fields()), y));
            let fields = Self::killed_by_player_fields();
            let vs = y->Record_0;
            lemma_field(catalog(), level, fields, y, 0);
            assert(
                fields[0] == defaulted("inverse"@, Shape::Bool, Datum::Bool(false), Omit::IfDefault)
            );
            lemma_plain(catalog(), catalog().len(), vs[0]);
        } else if i == 7 {
            assert(Self::branches()[7].1 == Shape::Record(Self::location_check_fields()));
            assert(conforms(catalog(), level, Shape::Record(Self::location_check_fields()), y));
            let fields = Self::location_check_fields();
            let vs = y->Record_0;
            lemma_field(catalog(), level, fields, y, 0);
            assert(
                fields[0] == defaulted("offsetX"@, opt_int_shape(), Datum::Absent, Omit::IfAbsent)
            );
            opt_int_fits(vs[0], catalog().len());
            lemma_field(catalog(), level, fields, y, 1);
            assert(
                fields[1] == defaulted("offsetY"@, opt_int_shape(), Datum::Absent, Omit::IfAbsent)
            );
            opt_int_fits(vs[1], catalog().len());
            lemma_field(catalog(), level, fields, y, 2);
            assert(
                fields[2] == defaulted("offsetZ"@, opt_int_shape(), Datum::Absent, Omit::IfAbsent)
            );
            opt_int_fits(vs[2], catalog().len());
            lemma_field(catalog(), level, fields, y, 3);
            assert(fields[3] == required("predicate"@, Location::shape()));
            Location::lemma_fits(vs[3], catalog().len());
        } else if i == 8 {
            assert(Self::branches()[8].1 == Shape::Record(Self::match_tool_fields()));
            assert(conforms(catalog(), level, Shape::Record(Self::match_tool_fields()), y));
            let fields = Self::match_tool_fields();
            let vs = y->Record_0;
            lemma_field(catalog(), level, fields, y, 0);
            assert(fields[0] == required("predicate"@, Item::shape()));
            Item::lemma_fits(vs[0], catalog().len());
        } else if i == 9 {
            assert(Self::branches()[9].1 == Shape::Record(Self::random_chance_fields()));
            assert(conforms(catalog(), level, Shape::Record(Self::random_chance_fields()), y));
            let fields = Self::random_chance_fields();
            let vs = y->Record_0;
            lemma_field(catalog(), level, fields, y, 0);
            assert(fields[0] == required("chance"@, Shape::Number));
            lemma_plain(catalog(), catalog().len(), vs[0]);
        } else if i == 10 {
            assert(
                Self::branches()[10].1 == Shape::Record(Self::random_chance_with_looting_fields())
            );
            assert(
                conforms(
                    catalog(),
                    level,
                    Shape::Record(Self::random_chance_with_looting_fields()),
                    y,
                )
            );
            let fields = Self::random_chance_with_looting_fields();
            let vs = y->Record_0;
            lemma_field(catalog(), level, fields, y, 0);
            assert(fields[0] == required("chance"@, Shape::Number));
            lemma_plain(catalog(), catalog().len(), vs[0]);
            lemma_field(catalog(), level, fields, y, 1);
            assert(fields[1] == required("looting_multiplier"@, Shape::Number));
            lemma_plain(catalog(), catalog().len(), vs[1]);
        } else if i == 11 {
            assert(Self::branches()[11].1 == Shape::Record(Self::reference_fields()));
            assert(conforms(catalog(), level, Shape::Record(Self::reference_fields()), y));
            let fields = Self::reference_fields();
            let vs = y->Record_0;
            lemma_field(catalog(), level, fields, y, 0);
            assert(fields[0] == required("name"@, Shape::Text));
            lemma_plain(catalog(), catalog().len(), vs[0]);
        } else if i == 12 {
            assert(Self::branches()[12].1 == Shape::Record(Self::survives_explosion_fields()));
            assert(conforms(catalog(), level, Shape::Record(Self::survives_explosion_fields()), y));
            let fields = Self::survives_explosion_fields();
            let vs = y->Record_0;
            assert(fields.len() == 0);
        } else if i == 13 {
            assert(Self::branches()[13].1 == Shape::Record(Self::table_bonus_fields()));
            assert(conforms(catalog(), level, Shape::Record(Self::table_bonus_fields()), y));
            let fields = Self::table_bonus_fields();
            let vs = y->Record_0;
            lemma_field(catalog(), level, fields, y, 0);
            assert(fields[0] == required("enchantment"@, Shape::Int));
            lemma_plain(catalog(), catalog().len(), vs[0]);
            lemma_field(catalog(), level, fields, y, 1);
            assert(fields[1] == required("chances"@, number_list_shape()));
            number_list_fits(vs[1], catalog().len());
        } else if i == 14 {
            assert(Self::branches()[14].1 == Shape::Record(Self::time_check_fields()));
            assert(conforms(catalog(), level, Shape::Record(Self::time_check_fields()), y));
            let fields = Self::time_check_fields();
            let vs = y->Record_0;
            lemma_field(catalog(), level, fields, y, 0);
            assert(fields[0] == required("value"@, ranged_int_int_or_int_provider_shape()));
            ranged_int_int_or_int_provider_fits(vs[0], catalog().len());
            lemma_field(catalog(), level, fields, y, 1);
            assert(
                fields[1] == defaulted("period"@, opt_int_shape(), Datum::Absent, Omit::IfAbsent)
            );
            opt_int_fits(vs[1], catalog().len());
        } else if i == 15 {
            assert(Self::branches()[15].1 == Shape::Record(Self::weather_check_fields()));
            assert(conforms(catalog(), level, Shape::Record(Self::weather_check_fields()), y));
            let fields = Self::weather_check_fields();
            let vs = y->Record_0;
            lemma_field(catalog(), level, fields, y, 0);
            assert(
                fields[0] == defaulted("raining"@, opt_bool_shape(), Datum::Absent, Omit::IfAbsent)
            );
            opt_bool_fits(vs[0], catalog().len());
            lemma_field(catalog(), level, fields, y, 1);
            assert(
                fields[1] == defaulted(
                    "thundering"@,
                    opt_bool_shape(),
                    Datum::Absent,
                    Omit::IfAbsent,
                )
            );
            opt_bool_fits(vs[1], catalog().len());
        } else if i == 16 {
            assert(Self::branches()[16].1 == Shape::Record(Self::value_check_fields()));
            assert(conforms(catalog(), level, Shape::Record(Self::value_check_fields()), y));
            let fields = Self::value_check_fields();
            let vs = y->Record_0;
            lemma_field(catalog(), level, fields, y, 0);
            assert(fields[0] == required("value"@, int_or_int_provider_shape()));
            int_or_int_provider_fits(vs[0], catalog().len());
            lemma_field(catalog(), level, fields, y, 1);
            assert(fields[1] == required("range"@, ranged_int_or_int_provider_shape()));
            ranged_int_or_int_provider_fits(vs[1], catalog().len());
        }
    }

    /// Every value of this type can be written and read back as itself.
    pub proof fn lemma_legal(&self, level: nat)
        ensures
            legal(catalog(), level, Self::def_shape(), self.datum()),
            legal(catalog(), catalog().len(), Self::shape(), self.datum()),
            encode_spec(catalog(), level, Self::def_shape(), self.datum()) is Object,
            encode_spec(catalog(), catalog().len(), Self::shape(), self.datum()) is Object,
        decreases self, 1nat,
    {
        lemma_catalog();
        self.lemma_legal_def(PREDICATE as nat);
        lemma_written_by_reference(catalog(), catalog().len(), PREDICATE as nat, self.datum());
        self.lemma_legal_def(level);
    }

    proof fn lemma_legal_def(&self, level: nat)
        ensures
            legal(catalog(), level, Self::def_shape(), self.datum()),
            encode_spec(catalog(), level, Self::def_shape(), self.datum()) is Object,
        decreases self, 0nat,
    {
        reveal(Predicate::def_shape);
        match self {
            Predicate::Alternative { terms } => {
                assert(Self::branches()[0].1 == Shape::Record(Self::alternative_fields()));
                let fs0 = Seq::<FieldShape>::empty();
                let vs0 = Seq::<Datum>::empty();
                lemma_no_fields_legal(catalog(), level);
                predicate_list_legal((*terms), catalog().len());
                lemma_more_fields_legal(
                    catalog(),
                    level,
                    fs0,
                    vs0,
                    required("terms"@, predicate_list_shape()),
                    predicate_list_datum(*terms),
                );
                let fs1 = fs0.push(required("terms"@, predicate_list_shape()));
                let vs1 = vs0.push(predicate_list_datum(*terms));
                lemma_record_legal(catalog(), level, fs1, vs1);
            },
            Predicate::BlockStateProperty { block, properties } => {
                assert(Self::branches()[1].1 == Shape::Record(Self::block_state_property_fields()));
                let fs0 = Seq::<FieldShape>::empty();
                let vs0 = Seq::<Datum>::empty();
                lemma_no_fields_legal(catalog(), level);
                lemma_plain_legal(catalog(), catalog().len(), Datum::Text((*block)@));
                lemma_more_fields_legal(
                    catalog(),
                    level,
                    fs0,
                    vs0,
                    required("block"@, Shape::Text),
                    Datum::Text((*block)@),
                );
                let fs1 = fs0.push(required("block"@, Shape::Text));
                let vs1 = vs0.push(Datum::Text((*block)@));
                text_map_legal((*properties), catalog().len());
                lemma_more_fields_legal(
                    catalog(),
                    level,
                    fs1,
                    vs1,
                    defaulted(
                        "properties"@,
                        text_map_shape(),
                        Datum::Dict(Seq::empty()),
                        Omit::IfEmpty,
                    ),
                    text_map_datum(*properties),
                );
                let fs2 = fs1.push(
                    defaulted(
                        "properties"@,
                        text_map_shape(),
                        Datum::Dict(Seq::empty()),
                        Omit::IfEmpty,
                    )
                );
                let vs2 = vs1.push(text_map_datum(*properties));
                lemma_record_legal(catalog(), level, fs2, vs2);
            },
            Predicate::DamageSourceProperties { predicate } => {
                assert(
                    Self::branches()[2].1 == Shape::Record(Self::damage_source_properties_fields())
                );
                let fs0 = Seq::<FieldShape>::empty();
                let vs0 = Seq::<Datum>::empty();
                lemma_no_fields_legal(catalog(), level);
                (*predicate).lemma_legal(catalog().len());
                lemma_more_fields_legal(
                    catalog(),
                    level,
                    fs0,
                    vs0,
                    required("predicate"@, DamageSource::shape()),
                    (*predicate).datum(),
                );
                let fs1 = fs0.push(required("predicate"@, DamageSource::shape()));
                let vs1 = vs0.push((*predicate).datum());
                lemma_record_legal(catalog(), level, fs1, vs1);
            },
            Predicate::EntityProperties { entity, predicate } => {
                assert(Self::branches()[3].1 == Shape::Record(Self::entity_properties_fields()));
                let fs0 = Seq::<FieldShape>::empty();
                let vs0 = Seq::<Datum>::empty();
                lemma_no_fields_legal(catalog(), level);
                (*entity).lemma_legal(catalog().len());
                lemma_more_fields_legal(
                    catalog(),
                    level,
                    fs0,
                    vs0,
                    required("entity"@, WhichEntity::shape()),
                    (*entity).datum(),
                );
                let fs1 = fs0.push(required("entity"@, WhichEntity::shape()));
                let vs1 = vs0.push((*entity).datum());
                (*(*predicate)).lemma_legal(catalog().len());
                lemma_more_fields_legal(
                    catalog(),
                    level,
                    fs1,
                    vs1,
                    required("predicate"@, Entity::shape()),
                    (*(*predicate)).datum(),
                );
                let fs2 = fs1.push(required("predicate"@, Entity::shape()));
                let vs2 = vs1.push((*(*predicate)).datum());
                lemma_record_legal(catalog(), level, fs2, vs2);
            },
            Predicate::EntityScores { entity, scores } => {
                assert(Self::branches()[4].1 == Shape::Record(Self::entity_scores_fields()));
                let fs0 = Seq::<FieldShape>::empty();
                let vs0 = Seq::<Datum>::empty();
                lemma_no_fields_legal(catalog(), level);
                (*entity).lemma_legal(catalog().len());
                lemma_more_fields_legal(
                    catalog(),
                    level,
                    fs0,
                    vs0,
                    required("entity"@, WhichEntity::shape()),
                    (*entity).datum(),
                );
                let fs1 = fs0.push(required("entity"@, WhichEntity::shape()));
                let vs1 = vs0.push((*entity).datum());
                ranged_int_map_legal((*scores), catalog().len());
                lemma_more_fields_legal(
                    catalog(),
                    level,
                    fs1,
                    vs1,
                    required("scores"@, ranged_int_map_shape()),
                    ranged_int_map_datum(*scores),
                );
                let fs2 = fs1.push(required("scores"@, ranged_int_map_shape()));
                let vs2 = vs1.push(ranged_int_map_datum(*scores));
                lemma_record_legal(catalog(), level, fs2, vs2);
            },
            Predicate::Inverted { term } => {
                assert(Self::branches()[5].1 == Shape::Record(Self::inverted_fields()));
                let fs0 = Seq::<FieldShape>::empty();
                let vs0 = Seq::<Datum>::empty();
                lemma_no_fields_legal(catalog(), level);
                (*(*term)).lemma_legal(catalog().len());
                lemma_more_fields_legal(
                    catalog(),
                    level,
                    fs0,
                    vs0,
                    required("term"@, Predicate::shape()),
                    (*(*term)).datum(),
                );
                let fs1 = fs0.push(required("term"@, Predicate::shape()));
                let vs1 = vs0.push((*(*term)).datum());
                lemma_record_legal(catalog(), level, fs1, vs1);
            },
            Predicate::KilledByPlayer { inverse } => {
                assert(Self::branches()[6].1 == Shape::Record(Self::killed_by_player_fields()));
                let fs0 = Seq::<FieldShape>::empty();
                let vs0 = Seq::<Datum>::empty();
                lemma_no_fields_legal(catalog(), level);
                lemma_plain_legal(catalog(), catalog().len(), Datum::Bool((*inverse)));
                lemma_more_fields_legal(
                    catalog(),
                    level,
                    fs0,
                    vs0,
                    defaulted("inverse"@, Shape::Bool, Datum::Bool(false), Omit::IfDefault),
                    Datum::Bool(*inverse),
                );
                let fs1 = fs0.push(
                    defaulted("inverse"@, Shape::Bool, Datum::Bool(false), Omit::IfDefault)
                );
                let vs1 = vs0.push(Datum::Bool(*inverse));
                lemma_record_legal(catalog(), level, fs1, vs1);
            },
            Predicate::LocationCheck { offset_x, offset_y, offset_z, predicate } => {
                assert(Self::branches()[7].1 == Shape::Record(Self::location_check_fields()));
                let fs0 = Seq::<FieldShape>::empty();
                let vs0 = Seq::<Datum>::empty();
                lemma_no_fields_legal(catalog(), level);
                opt_int_legal((*offset_x), catalog().len());
                lemma_more_fields_legal(
                    catalog(),
                    level,
                    fs0,
                    vs0,
                    defaulted("offsetX"@, opt_int_shape(), Datum::Absent, Omit::IfAbsent),
                    opt_int_datum(*offset_x),
                );
                let fs1 = fs0.push(
                    defaulted("offsetX"@, opt_int_shape(), Datum::Absent, Omit::IfAbsent)
                );
                let vs1 = vs0.push(opt_int_datum(*offset_x));
                opt_int_legal((*offset_y), catalog().len());
                lemma_more_fields_legal(
                    catalog(),
                    level,
                    fs1,
                    vs1,
                    defaulted("offsetY"@, opt_int_shape(), Datum::Absent, Omit::IfAbsent),
                    opt_int_datum(*offset_y),
                );
                let fs2 = fs1.push(
                    defaulted("offsetY"@, opt_int_shape(), Datum::Absent, Omit::IfAbsent)
                );
                let vs2 = vs1.push(opt_int_datum(*offset_y));
                opt_int_legal((*offset_z), catalog().len());
                lemma_more_fields_legal(
                    catalog(),
                    level,
                    fs2,
                    vs2,
                    defaulted("offsetZ"@, opt_int_shape(), Datum::Absent, Omit::IfAbsent),
                    opt_int_datum(*offset_z),
                );
                let fs3 = fs2.push(
                    defaulted("offsetZ"@, opt_int_shape(), Datum::Absent, Omit::IfAbsent)
                );
                let vs3 = vs2.push(opt_int_datum(*offset_z));
                (*(*predicate)).lemma_legal(catalog().len());
                lemma_more_fields_legal(
                    catalog(),
                    level,
                    fs3,
                    vs3,
                    required("predicate"@, Location::shape()),
                    (*(*predicate)).datum(),
                );
                let fs4 = fs3.push(required("predicate"@, Location::shape()));
                let vs4 = vs3.push((*(*predicate)).datum());
                lemma_record_legal(catalog(), level, fs4, vs4);
            },
            Predicate::MatchTool { predicate } => {
                assert(Self::branches()[8].1 == Shape::Record(Self::match_tool_fields()));
                let fs0 = Seq::<FieldShape>::empty();
                let vs0 = Seq::<Datum>::empty();
                lemma_no_fields_legal(catalog(), level);
                (*(*predicate)).lemma_legal(catalog().len());
                lemma_more_fields_legal(
                    catalog(),
                    level,
                    fs0,
                    vs0,
                    required("predicate"@, Item::shape()),
                    (*(*predicate)).datum(),
                );
                let fs1 = fs0.push(required("predicate"@, Item::shape()));
                let vs1 = vs0.push((*(*predicate)).datum());
                lemma_record_legal(catalog(), level, fs1, vs1);
            },
            Predicate::RandomChance { chance } => {
                assert(Self::branches()[9].1 == Shape::Record(Self::random_chance_fields()));
                let fs0 = Seq::<FieldShape>::empty();
                let vs0 = Seq::<Datum>::empty();
                lemma_no_fields_legal(catalog(), level);
                lemma_plain_legal(catalog(), catalog().len(), Datum::Number((*chance)));
                lemma_more_fields_legal(
                    catalog(),
                    level,
                    fs0,
                    vs0,
                    required("chance"@, Shape::Number),
                    Datum::Number(*chance),
                );
                let fs1 = fs0.push(required("chance"@, Shape::Number));
                let vs1 = vs0.push(Datum::Number(*chance));
                lemma_record_legal(catalog(), level, fs1, vs1);
            },
            Predicate::RandomChanceWithLooting { chance, looting_multiplier } => {
                assert(
                    Self::branches()[10].1 == Shape::Record(
                        Self::random_chance_with_looting_fields()
                    )
                );
                let fs0 = Seq::<FieldShape>::empty();
                let vs0 = Seq::<Datum>::empty();
                lemma_no_fields_legal(catalog(), level);
                lemma_plain_legal(catalog(), catalog().len(), Datum::Number((*chance)));
                lemma_more_fields_legal(
                    catalog(),
                    level,
                    fs0,
                    vs0,
                    required("chance"@, Shape::Number),
                    Datum::Number(*chance),
                );
                let fs1 = fs0.push(required("chance"@, Shape::Number));
                let vs1 = vs0.push(Datum::Number(*chance));
                lemma_plain_legal(catalog(), catalog().len(), Datum::Number((*looting_multiplier)));
                lemma_more_fields_legal(
                    catalog(),
                    level,
                    fs1,
                    vs1,
                    required("looting_multiplier"@, Shape::Number),
                    Datum::Number(*looting_multiplier),
                );
                let fs2 = fs1.push(required("looting_multiplier"@, Shape::Number));
                let vs2 = vs1.push(Datum::Number(*looting_multiplier));
                lemma_record_legal(catalog(), level, fs2, vs2);
            },
            Predicate::Reference { name } => {
                assert(Self::branches()[11].1 == Shape::Record(Self::reference_fields()));
                let fs0 = Seq::<FieldShape>::empty();
                let vs0 = Seq::<Datum>::empty();
                lemma_no_fields_legal(catalog(), level);
                lemma_plain_legal(catalog(), catalog().len(), Datum::Text((*name)@));
                lemma_more_fields_legal(
                    catalog(),
                    level,
                    fs0,
                    vs0,
                    required("name"@, Shape::Text),
                    Datum::Text((*name)@),
                );
                let fs1 = fs0.push(required("name"@, Shape::Text));
                let vs1 = vs0.push(Datum::Text((*name)@));
                lemma_record_legal(catalog(), level, fs1, vs1);
            },
            Predicate::SurvivesExplosion => {
                assert(Self::branches()[12].1 == Shape::Record(Self::survives_explosion_fields()));
                let fs0 = Seq::<FieldShape>::empty();
                let vs0 = Seq::<Datum>::empty();
                lemma_no_fields_legal(catalog(), level);
                lemma_record_legal(catalog(), level, fs0, vs0);
            },
            Predicate::TableBonus { enchantment, chances } => {
                assert(Self::branches()[13].1 == Shape::Record(Self::table_bonus_fields()));
                let fs0 = Seq::<FieldShape>::empty();
                let vs0 = Seq::<Datum>::empty();
                lemma_no_fields_legal(catalog(), level);
                lemma_plain_legal(catalog(), catalog().len(), Datum::Int((*enchantment)));
                lemma_more_fields_legal(
                    catalog(),
                    level,
                    fs0,
                    vs0,
                    required("enchantment"@, Shape::Int),
                    Datum::Int(*enchantment),
                );
                let fs1 = fs0.push(required("enchantment"@, Shape::Int));
                let vs1 = vs0.push(Datum::Int(*enchantment));
                number_list_legal((*chances), catalog().len());
                lemma_more_fields_legal(
                    catalog(),
                    level,
                    fs1,
                    vs1,
                    required("chances"@, number_list_shape()),
                    number_list_datum(*chances),
                );
                let fs2 = fs1.push(required("chances"@, number_list_shape()));
                let vs2 = vs1.push(number_list_datum(*chances));
                lemma_record_legal(catalog(), level, fs2, vs2);
            },
            Predicate::TimeCheck { value, period } => {
                assert(Self::branches()[14].1 == Shape::Record(Self::time_check_fields()));
                let fs0 = Seq::<FieldShape>::empty();
                let vs0 = Seq::<Datum>::empty();
                lemma_no_fields_legal(catalog(), level);
                ranged_int_int_or_int_provider_legal((*value), catalog().len());
                lemma_more_fields_legal(
                    catalog(),
                    level,
                    fs0,
                    vs0,
                    required("value"@, ranged_int_int_or_int_provider_shape()),
                    ranged_int_int_or_int_provider_datum(*value),
                );
                let fs1 = fs0.push(required("value"@, ranged_int_int_or_int_provider_shape()));
                let vs1 = vs0.push(ranged_int_int_or_int_provider_datum(*value));
                opt_int_legal((*period), catalog().len());
                lemma_more_fields_legal(
                    catalog(),
                    level,
                    fs1,
                    vs1,
                    defaulted("period"@, opt_int_shape(), Datum::Absent, Omit::IfAbsent),
                    opt_int_datum(*period),
                );
                let fs2 = fs1.push(
                    defaulted("period"@, opt_int_shape(), Datum::Absent, Omit::IfAbsent)
                );
                let vs2 = vs1.push(opt_int_datum(*period));
                lemma_record_legal(catalog(), level, fs2, vs2);
            },
            Predicate::WeatherCheck { raining, thundering } => {
                assert(Self::branches()[15].1 == Shape::Record(Self::weather_check_fields()));
                let fs0 = Seq::<FieldShape>::empty();
                let vs0 = Seq::<Datum>::empty();
                lemma_no_fields_legal(catalog(), level);
                opt_bool_legal((*raining), catalog().len());
                lemma_more_fields_legal(
                    catalog(),
                    level,
                    fs0,
                    vs0,
                    defaulted("raining"@, opt_bool_shape(), Datum::Absent, Omit::IfAbsent),
                    opt_bool_datum(*raining),
                );
                let fs1 = fs0.push(
                    defaulted("raining"@, opt_bool_shape(), Datum::Absent, Omit::IfAbsent)
                );
                let vs1 = vs0.push(opt_bool_datum(*raining));
                opt_bool_legal((*thundering), catalog().len());
                lemma_more_fields_legal(
                    catalog(),
                    level,
                    fs1,
                    vs1,
                    defaulted("thundering"@, opt_bool_shape(), Datum::Absent, Omit::IfAbsent),
                    opt_bool_datum(*thundering),
                );
                let fs2 = fs1.push(
                    defaulted("thundering"@, opt_bool_shape(), Datum::Absent, Omit::IfAbsent)
                );
                let vs2 = vs1.push(opt_bool_datum(*thundering));
                lemma_record_legal(catalog(), level, fs2, vs2);
            },
            Predicate::ValueCheck { value, range } => {
                assert(Self::branches()[16].1 == Shape::Record(Self::value_check_fields()));
                let fs0 = Seq::<FieldShape>::empty();
                let vs0 = Seq::<Datum>::empty();
                lemma_no_fields_legal(catalog(), level);
                int_or_int_provider_legal((*value), catalog().len());
                lemma_more_fields_legal(
                    catalog(),
                    level,
                    fs0,
                    vs0,
                    required("value"@, int_or_int_provider_shape()),
                    int_or_int_provider_datum(*value),
                );
                let fs1 = fs0.push(required("value"@, int_or_int_provider_shape()));
                let vs1 = vs0.push(int_or_int_provider_datum(*value));
                ranged_int_or_int_provider_legal((*range), catalog().len());
                lemma_more_fields_legal(
                    catalog(),
                    level,
                    fs1,
                    vs1,
                    required("range"@, ranged_int_or_int_provider_shape()),
                    ranged_int_or_int_provider_datum(*range),
                );
                let fs2 = fs1.push(required("range"@, ranged_int_or_int_provider_shape()));
                let vs2 = vs1.push(ranged_int_or_int_provider_datum(*range));
                lemma_record_legal(catalog(), level, fs2, vs2);
            },
        }
    }
}

/// The models of the items of a list.
pub open spec fn predicate_list_data(v: Seq<Predicate>) -> Seq<Datum>
    decreases v,
{
    Seq::new(
        v.len(),
        |i: int|
            if 0 <= i < v.len() {
                v[i].datum()
            } else {
                Datum::Absent
            },
    )
}

/// The model of a list.
pub open spec fn predicate_list_datum(v: Vec<Predicate>) -> Datum
    decreases v,
{
    Datum::List(predicate_list_data(v@))
}

/// Whether `d` is the model of a list of this type.
pub open spec fn predicate_list_valid(d: Datum) -> bool
    decreases d,
{
    d matches Datum::List(items) && forall|i: int| 0 <= i < items.len() ==> Predicate::valid(
        (#[trigger] items[i])
    )
}

/// The shape of a list of this type.
pub open spec fn predicate_list_shape() -> Shape {
    Shape::List(Box::new(Predicate::shape()))
}

/// The node of a list of this type.
pub fn predicate_list_node() -> (n: Node)
    ensures
        n.shape() == predicate_list_shape(),
{
    Node::List(Box::new(Predicate::node()))
}

/// A list in generic form.
pub fn predicate_list_to(v: &Vec<Predicate>) -> (x: Instance)
    ensures
        x@ == predicate_list_datum(*v),
            decreases v,
{
    let mut items: Vec<Instance> = Vec::new();
    let mut k: usize = 0;
    while k < v.len()
        invariant
            k <= v.len(),
            items.len() == k,
            forall|i: int| 0 <= i < k ==> (#[trigger] items[i])@ == v[i].datum(),
        decreases v.len() - k,
    {
        items.push(Predicate::to_instance(&v[k]));
        k += 1;
    }
    assert(data(items@) =~= predicate_list_data(v@));
    Instance::List(items)
}

/// The items that a run of instances stands for, if each stands for one.
pub fn predicate_list_from_items(items: &Vec<Instance>) -> (r: Option<Vec<Predicate>>)
    ensures
        match r {
            Some(v) => predicate_list_data(v@) == data(items@),
            None => exists|i: int| 0 <= i < items.len() && !(
                Predicate::valid((#[trigger] data(items@)[i]))
            ),
        },
            decreases items,
{
    let mut out: Vec<Predicate> = Vec::new();
    let mut k: usize = 0;
    while k < items.len()
        invariant
            k <= items.len(),
            out.len() == k,
            forall|i: int| 0 <= i < k ==> out[i].datum() == (#[trigger] items[i])@,
        decreases items.len() - k,
    {
        match Predicate::from_instance(&items[k]) {
            Some(v) => {
                out.push(v);
            },
            None => {
                assert(!(Predicate::valid(data(items@)[k as int])));
                return None;
            },
        }
        k += 1;
    }
    assert(predicate_list_data(out@) =~= data(items@));
    Some(out)
}

/// The list that an instance stands for, if it stands for one.
pub fn predicate_list_from(x: &Instance) -> (r: Option<Vec<Predicate>>)
    ensures
        match r {
            Some(v) => predicate_list_datum(v) == x@,
            None => !predicate_list_valid(x@),
        },
            decreases x,
{
    match x {
        Instance::List(items) => {
            assert(x@->List_0 == data(items@));
            predicate_list_from_items(items)
        },
        _ => None,
    }
}

/// Every list of this type is a value of its shape.
pub proof fn predicate_list_conforms(v: Vec<Predicate>, level: nat)
    ensures
        conforms(catalog(), level, predicate_list_shape(), predicate_list_datum(v)),
            decreases v, 0nat,
{
    let items = predicate_list_data(v@);
    assert forall|i: int| 0 <= i < items.len() implies conforms(
        catalog(),
        catalog().len(),
        Predicate::shape(),
        #[trigger] items[i],
    ) by {
        v@[i].lemma_conforms(catalog().len());
    }
}

/// Every value of the shape is the model of a list of this type.
pub proof fn predicate_list_fits(d: Datum, level: nat)
    requires
        conforms(catalog(), level, predicate_list_shape(), d),
    ensures
        predicate_list_valid(d),
            decreases d, 0nat,
{
    let items = d->List_0;
    assert forall|i: int| 0 <= i < items.len() implies Predicate::valid((#[trigger] items[i])) by {
        Predicate::lemma_fits(items[i], catalog().len());
    }
}

/// Every list of this type can be written and read back as itself.
pub proof fn predicate_list_legal(v: Vec<Predicate>, level: nat)
    ensures
        legal(catalog(), level, predicate_list_shape(), predicate_list_datum(v)),
        encode_spec(catalog(), level, predicate_list_shape(), predicate_list_datum(v)) is Array,
            decreases v, 0nat,
{
    let items = predicate_list_data(v@);
    assert forall|i: int| 0 <= i < items.len() implies legal(
        catalog(),
        catalog().len(),
        Predicate::shape(),
        #[trigger] items[i],
    ) by {
        v@[i].lemma_legal(catalog().len());
    }
}

} // verus!
