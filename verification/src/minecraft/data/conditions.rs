//! Conditions on places, blocks, items, entities and damage, as advancements and
//! predicates use them.

use crate::decode::decode_spec;
use crate::encode::{conforms, encode_spec, legal};
use crate::instance::{data, Datum, Instance, named_data};
use crate::minecraft::catalog::{
    ADVANCEMENT_STATUS, BLOCK, catalog, DAMAGE_SOURCE, DISTANCE, EFFECT, ENCHANTMENT, ENTITY,
    ENTITY_FLAGS, EQUIPMENT, FLUID, GAME_MODE, ITEM, lemma_catalog, LIGHTNING_BOLT, LOCATION,
    PLAYER, STATISTIC,
};
use crate::minecraft::common::{
    Either, opt_ranged_int_conforms, opt_ranged_int_datum, opt_ranged_int_fits, opt_ranged_int_from,
    opt_ranged_int_legal, opt_ranged_int_node, opt_ranged_int_shape, opt_ranged_int_to,
    opt_ranged_int_valid, opt_vector_ranged_int_conforms, opt_vector_ranged_int_datum,
    opt_vector_ranged_int_fits, opt_vector_ranged_int_from, opt_vector_ranged_int_legal,
    opt_vector_ranged_int_node, opt_vector_ranged_int_shape, opt_vector_ranged_int_to,
    opt_vector_ranged_int_valid, plain_value_map_conforms, plain_value_map_datum,
    plain_value_map_entries, plain_value_map_fits, plain_value_map_from, plain_value_map_legal,
    plain_value_map_node, plain_value_map_shape, plain_value_map_to, plain_value_map_valid,
    PlainValue, Ranged2, ranged_int_conforms, ranged_int_datum, ranged_int_fits, ranged_int_from,
    ranged_int_legal, ranged_int_node, ranged_int_shape, ranged_int_to, ranged_int_valid, Vector3d,
    vector_ranged_int_conforms, vector_ranged_int_datum, vector_ranged_int_fits,
    vector_ranged_int_from, vector_ranged_int_legal, vector_ranged_int_node,
    vector_ranged_int_shape, vector_ranged_int_to, vector_ranged_int_valid,
};
use crate::minecraft::plain::{
    bool_from, bool_map_conforms, bool_map_datum, bool_map_entries, bool_map_fits, bool_map_from,
    bool_map_legal, bool_map_node, bool_map_shape, bool_map_to, bool_map_valid, bool_node, bool_to,
    boxed, defaulted, empty_list, empty_map, field_defaulted, field_flattened, field_required,
    flattened, lemma_field, lemma_more_fields, lemma_no_fields, lemma_plain, lemma_plain_legal,
    lemma_record, lemma_ref, lemma_unref, no_fields, no_nodes, no_values, no_words,
    opt_bool_conforms, opt_bool_datum, opt_bool_fits, opt_bool_from, opt_bool_legal, opt_bool_node,
    opt_bool_shape, opt_bool_to, opt_bool_valid, opt_int_conforms, opt_int_datum, opt_int_fits,
    opt_int_from, opt_int_legal, opt_int_node, opt_int_shape, opt_int_to, opt_int_valid,
    opt_text_conforms, opt_text_datum, opt_text_fits, opt_text_from, opt_text_legal, opt_text_node,
    opt_text_shape, opt_text_to, opt_text_valid, push_field, push_node, push_value, push_word,
    required, text_from, text_list_conforms, text_list_data, text_list_datum, text_list_fits,
    text_list_from, text_list_legal, text_list_node, text_list_shape, text_list_to, text_list_valid,
    text_node, text_to,
};
use crate::rejects::{
    lemma_more_fields_legal, lemma_no_fields_legal, lemma_record_legal, lemma_written_by_reference,
    lemma_wrong_kind,
};
use crate::schema::{FieldShape, Node, Omit, Shape, shapes};
use crate::value::{Kind, kind_of, words};
use vstd::prelude::*;

verus! {

/// A condition on one enchantment.
#[derive(Debug, PartialEq, Eq)]
pub struct Enchantment {
    pub enchantment: Option<String>,
    pub levels: Option<Ranged2<i64, i64>>,
}

impl Enchantment {
    /// The model of this value.
    pub open spec fn datum(&self) -> Datum {
        Datum::Record(
            Seq::empty()
                .push(opt_text_datum(self.enchantment))
                .push(opt_ranged_int_datum(self.levels)),
        )
    }

    /// Whether `d` is the model of a value of this type.
    pub open spec fn valid(d: Datum) -> bool {
        &&& d matches Datum::Record(vs)
        &&& vs.len() == 2
        &&& opt_text_valid(vs[0])
        &&& opt_ranged_int_valid(vs[1])
    }

    /// The fields of this type, in declaration order.
    pub open spec fn fields() -> Seq<FieldShape> {
        Seq::empty()
            .push(defaulted("enchantment"@, opt_text_shape(), Datum::Absent, Omit::IfAbsent))
            .push(defaulted("levels"@, opt_ranged_int_shape(), Datum::Absent, Omit::IfAbsent))
    }

    /// The shape of the documents of this type.
    #[verifier::opaque]
    pub open spec fn def_shape() -> Shape {
        Shape::Record(Self::fields())
    }

    /// The node of the documents of this type.
    pub fn def_node() -> (n: Node)
        ensures
            n.shape() == Self::def_shape(),
    {
        reveal(Enchantment::def_shape);
        let mut fields = no_fields();
        push_field(
            &mut fields,
            field_defaulted("enchantment", opt_text_node(), Instance::Absent, Omit::IfAbsent),
        );
        push_field(
            &mut fields,
            field_defaulted("levels", opt_ranged_int_node(), Instance::Absent, Omit::IfAbsent),
        );
        Node::Record(fields)
    }

    /// This value in generic form.
    pub fn to_instance(&self) -> (x: Instance)
        ensures
            x@ == self.datum(),
    {
        let mut values = no_values();
        push_value(&mut values, opt_text_to(&self.enchantment));
        push_value(&mut values, opt_ranged_int_to(&self.levels));
        Instance::Record(values)
    }

    /// The value that an instance stands for, if it stands for one.
    pub fn from_instance(x: &Instance) -> (r: Option<Enchantment>)
        ensures
            match r {
                Some(t) => t.datum() == x@,
                None => !Self::valid(x@),
            },
    {
        match x {
            Instance::Record(values) => {
                assert(x@->Record_0 == data(values@));
                if values.len() != 2 {
                    return None;
                }
                let f0 = match opt_text_from(&values[0]) {
                    Some(v) => v,
                    None => {
                        assert(data(values@)[0] == values[0]@);
                        return None;
                    },
                };
                let f1 = match opt_ranged_int_from(&values[1]) {
                    Some(v) => v,
                    None => {
                        assert(data(values@)[1] == values[1]@);
                        return None;
                    },
                };
                let t = Enchantment { enchantment: f0, levels: f1 };
                assert(
                    data(values@) =~= Seq::empty().push(opt_text_datum(t.enchantment)).push(
                        opt_ranged_int_datum(t.levels)
                    )
                );
                Some(t)
            },
            _ => None,
        }
    }

    /// The reference to the definition of this type.
    pub open spec fn shape() -> Shape {
        Shape::Ref(ENCHANTMENT as nat)
    }

    /// The node that refers to the definition of this type.
    pub fn node() -> (n: Node)
        ensures
            n.shape() == Self::shape(),
    {
        Node::Ref(ENCHANTMENT)
    }

    /// Every value of this type is a value of its shape.
    pub proof fn lemma_conforms(&self, level: nat)
        ensures
            conforms(catalog(), level, Self::def_shape(), self.datum()),
            conforms(catalog(), catalog().len(), Self::shape(), self.datum()),
    {
        lemma_catalog();
        self.lemma_conforms_def(ENCHANTMENT as nat);
        lemma_ref(catalog(), ENCHANTMENT as nat, self.datum());
        self.lemma_conforms_def(level);
    }

    /// Every value of the shape of this type is the model of one of its values.
    pub proof fn lemma_fits(d: Datum, level: nat)
        requires
            conforms(catalog(), level, Self::def_shape(), d) || conforms(
                catalog(),
                level,
                Self::shape(),
                d,
            ),
        ensures
            Self::valid(d),
    {
        lemma_catalog();
        if conforms(catalog(), level, Self::def_shape(), d) {
            Self::lemma_fits_def(d, level);
        } else {
            lemma_unref(catalog(), level, ENCHANTMENT as nat, d);
            Self::lemma_fits_def(d, ENCHANTMENT as nat);
        }
    }

    proof fn lemma_conforms_def(&self, level: nat)
        ensures
            conforms(catalog(), level, Self::def_shape(), self.datum()),
    {
        reveal(Enchantment::def_shape);
        let fs0 = Seq::<FieldShape>::empty();
        let vs0 = Seq::<Datum>::empty();
        lemma_no_fields(catalog(), level);
        opt_text_conforms(self.enchantment, catalog().len());
        lemma_more_fields(
            catalog(),
            level,
            fs0,
            vs0,
            defaulted("enchantment"@, opt_text_shape(), Datum::Absent, Omit::IfAbsent),
            opt_text_datum(self.enchantment),
        );
        let fs1 = fs0.push(
            defaulted("enchantment"@, opt_text_shape(), Datum::Absent, Omit::IfAbsent)
        );
        let vs1 = vs0.push(opt_text_datum(self.enchantment));
        opt_ranged_int_conforms(self.levels, catalog().len());
        lemma_more_fields(
            catalog(),
            level,
            fs1,
            vs1,
            defaulted("levels"@, opt_ranged_int_shape(), Datum::Absent, Omit::IfAbsent),
            opt_ranged_int_datum(self.levels),
        );
        let fs2 = fs1.push(
            defaulted("levels"@, opt_ranged_int_shape(), Datum::Absent, Omit::IfAbsent)
        );
        let vs2 = vs1.push(opt_ranged_int_datum(self.levels));
        lemma_record(catalog(), level, fs2, vs2);
    }

    proof fn lemma_fits_def(d: Datum, level: nat)
        requires
            conforms(catalog(), level, Self::def_shape(), d),
        ensures
            Self::valid(d),
    {
        reveal(Enchantment::def_shape);
        let fields = Self::fields();
        let vs = d->Record_0;
        lemma_field(catalog(), level, fields, d, 0);
        assert(
            fields[0] == defaulted("enchantment"@, opt_text_shape(), Datum::Absent, Omit::IfAbsent)
        );
        opt_text_fits(vs[0], catalog().len());
        lemma_field(catalog(), level, fields, d, 1);
        assert(
            fields[1] == defaulted("levels"@, opt_ranged_int_shape(), Datum::Absent, Omit::IfAbsent)
        );
        opt_ranged_int_fits(vs[1], catalog().len());
    }

    /// Every value of this type can be written and read back as itself.
    pub proof fn lemma_legal(&self, level: nat)
        ensures
            legal(catalog(), level, Self::def_shape(), self.datum()),
            legal(catalog(), catalog().len(), Self::shape(), self.datum()),
            encode_spec(catalog(), level, Self::def_shape(), self.datum()) is Object,
            encode_spec(catalog(), catalog().len(), Self::shape(), self.datum()) is Object,
    {
        lemma_catalog();
        self.lemma_legal_def(ENCHANTMENT as nat);
        lemma_written_by_reference(catalog(), catalog().len(), ENCHANTMENT as nat, self.datum());
        self.lemma_legal_def(level);
    }

    proof fn lemma_legal_def(&self, level: nat)
        ensures
            legal(catalog(), level, Self::def_shape(), self.datum()),
            encode_spec(catalog(), level, Self::def_shape(), self.datum()) is Object,
    {
        reveal(Enchantment::def_shape);
        let fs0 = Seq::<FieldShape>::empty();
        let vs0 = Seq::<Datum>::empty();
        lemma_no_fields_legal(catalog(), level);
        opt_text_legal(self.enchantment, catalog().len());
        lemma_more_fields_legal(
            catalog(),
            level,
            fs0,
            vs0,
            defaulted("enchantment"@, opt_text_shape(), Datum::Absent, Omit::IfAbsent),
            opt_text_datum(self.enchantment),
        );
        let fs1 = fs0.push(
            defaulted("enchantment"@, opt_text_shape(), Datum::Absent, Omit::IfAbsent)
        );
        let vs1 = vs0.push(opt_text_datum(self.enchantment));
        opt_ranged_int_legal(self.levels, catalog().len());
        lemma_more_fields_legal(
            catalog(),
            level,
            fs1,
            vs1,
            defaulted("levels"@, opt_ranged_int_shape(), Datum::Absent, Omit::IfAbsent),
            opt_ranged_int_datum(self.levels),
        );
        let fs2 = fs1.push(
            defaulted("levels"@, opt_ranged_int_shape(), Datum::Absent, Omit::IfAbsent)
        );
        let vs2 = vs1.push(opt_ranged_int_datum(self.levels));
        lemma_record_legal(catalog(), level, fs2, vs2);
    }
}

impl Enchantment {
    /// The model of the default value of this type.
    pub open spec fn default_datum() -> Datum {
        Datum::Record(Seq::empty().push(Datum::Absent).push(Datum::Absent))
    }
}

impl Default for Enchantment {
    fn default() -> (r: Enchantment)
        ensures
            r.datum() == Enchantment::default_datum(),
    {
        let r = Enchantment { enchantment: None, levels: None };
        r
    }
}

/// Conditions on an item stack.
#[derive(Debug, PartialEq, Eq)]
pub struct Item {
    pub count: Option<Ranged2<i64, i64>>,
    pub durability: Option<Ranged2<i64, i64>>,
    pub enchantments: Vec<Enchantment>,
    pub stored_enchantments: Vec<Enchantment>,
    pub items: Vec<String>,
    pub nbt: Option<String>,
    pub potion: Option<String>,
    pub tag: Option<String>,
}

impl Item {
    /// The model of this value.
    pub open spec fn datum(&self) -> Datum {
        Datum::Record(
            Seq::empty()
                .push(opt_ranged_int_datum(self.count))
                .push(opt_ranged_int_datum(self.durability))
                .push(enchantment_list_datum(self.enchantments))
                .push(enchantment_list_datum(self.stored_enchantments))
                .push(text_list_datum(self.items))
                .push(opt_text_datum(self.nbt))
                .push(opt_text_datum(self.potion))
                .push(opt_text_datum(self.tag)),
        )
    }

    /// Whether `d` is the model of a value of this type.
    pub open spec fn valid(d: Datum) -> bool {
        &&& d matches Datum::Record(vs)
        &&& vs.len() == 8
        &&& opt_ranged_int_valid(vs[0])
        &&& opt_ranged_int_valid(vs[1])
        &&& enchantment_list_valid(vs[2])
        &&& enchantment_list_valid(vs[3])
        &&& text_list_valid(vs[4])
        &&& opt_text_valid(vs[5])
        &&& opt_text_valid(vs[6])
        &&& opt_text_valid(vs[7])
    }

    /// The fields of this type, in declaration order.
    pub open spec fn fields() -> Seq<FieldShape> {
        Seq::empty()
            .push(defaulted("count"@, opt_ranged_int_shape(), Datum::Absent, Omit::IfAbsent))
            .push(defaulted("durability"@, opt_ranged_int_shape(), Datum::Absent, Omit::IfAbsent))
            .push(
                defaulted(
                    "enchantments"@,
                    enchantment_list_shape(),
                    Datum::List(Seq::empty()),
                    Omit::IfEmpty,
                )
            )
            .push(
                defaulted(
                    "stored_enchantments"@,
                    enchantment_list_shape(),
                    Datum::List(Seq::empty()),
                    Omit::IfEmpty,
                )
            )
            .push(defaulted("items"@, text_list_shape(), Datum::List(Seq::empty()), Omit::IfEmpty))
            .push(defaulted("nbt"@, opt_text_shape(), Datum::Absent, Omit::IfAbsent))
            .push(defaulted("potion"@, opt_text_shape(), Datum::Absent, Omit::IfAbsent))
            .push(defaulted("tag"@, opt_text_shape(), Datum::Absent, Omit::IfAbsent))
    }

    /// The shape of the documents of this type.
    #[verifier::opaque]
    pub open spec fn def_shape() -> Shape {
        Shape::Record(Self::fields())
    }

    /// The node of the documents of this type.
    pub fn def_node() -> (n: Node)
        ensures
            n.shape() == Self::def_shape(),
    {
        reveal(Item::def_shape);
        let mut fields = no_fields();
        push_field(
            &mut fields,
            field_defaulted("count", opt_ranged_int_node(), Instance::Absent, Omit::IfAbsent),
        );
        push_field(
            &mut fields,
            field_defaulted("durability", opt_ranged_int_node(), Instance::Absent, Omit::IfAbsent),
        );
        push_field(
            &mut fields,
            field_defaulted("enchantments", enchantment_list_node(), empty_list(), Omit::IfEmpty),
        );
        push_field(
            &mut fields,
            field_defaulted(
                "stored_enchantments",
                enchantment_list_node(),
                empty_list(),
                Omit::IfEmpty,
            ),
        );
        push_field(
            &mut fields,
            field_defaulted("items", text_list_node(), empty_list(), Omit::IfEmpty),
        );
        push_field(
            &mut fields,
            field_defaulted("nbt", opt_text_node(), Instance::Absent, Omit::IfAbsent),
        );
        push_field(
            &mut fields,
            field_defaulted("potion", opt_text_node(), Instance::Absent, Omit::IfAbsent),
        );
        push_field(
            &mut fields,
            field_defaulted("tag", opt_text_node(), Instance::Absent, Omit::IfAbsent),
        );
        Node::Record(fields)
    }

    /// This value in generic form.
    pub fn to_instance(&self) -> (x: Instance)
        ensures
            x@ == self.datum(),
    {
        let mut values = no_values();
        push_value(&mut values, opt_ranged_int_to(&self.count));
        push_value(&mut values, opt_ranged_int_to(&self.durability));
        push_value(&mut values, enchantment_list_to(&self.enchantments));
        push_value(&mut values, enchantment_list_to(&self.stored_enchantments));
        push_value(&mut values, text_list_to(&self.items));
        push_value(&mut values, opt_text_to(&self.nbt));
        push_value(&mut values, opt_text_to(&self.potion));
        push_value(&mut values, opt_text_to(&self.tag));
        Instance::Record(values)
    }

    /// The value that an instance stands for, if it stands for one.
    pub fn from_instance(x: &Instance) -> (r: Option<Item>)
        ensures
            match r {
                Some(t) => t.datum() == x@,
                None => !Self::valid(x@),
            },
    {
        match x {
            Instance::Record(values) => {
                assert(x@->Record_0 == data(values@));
                if values.len() != 8 {
                    return None;
                }
                let f0 = match opt_ranged_int_from(&values[0]) {
                    Some(v) => v,
                    None => {
                        assert(data(values@)[0] == values[0]@);
                        return None;
                    },
                };
                let f1 = match opt_ranged_int_from(&values[1]) {
                    Some(v) => v,
                    None => {
                        assert(data(values@)[1] == values[1]@);
                        return None;
                    },
                };
                let f2 = match enchantment_list_from(&values[2]) {
                    Some(v) => v,
                    None => {
                        assert(data(values@)[2] == values[2]@);
                        return None;
                    },
                };
                let f3 = match enchantment_list_from(&values[3]) {
                    Some(v) => v,
                    None => {
                        assert(data(values@)[3] == values[3]@);
                        return None;
                    },
                };
                let f4 = match text_list_from(&values[4]) {
                    Some(v) => v,
                    None => {
                        assert(data(values@)[4] == values[4]@);
                        return None;
                    },
                };
                let f5 = match opt_text_from(&values[5]) {
                    Some(v) => v,
                    None => {
                        assert(data(values@)[5] == values[5]@);
                        return None;
                    },
                };
                let f6 = match opt_text_from(&values[6]) {
                    Some(v) => v,
                    None => {
                        assert(data(values@)[6] == values[6]@);
                        return None;
                    },
                };
                let f7 = match opt_text_from(&values[7]) {
                    Some(v) => v,
                    None => {
                        assert(data(values@)[7] == values[7]@);
                        return None;
                    },
                };
                let t = Item { count: f0, durability: f1, enchantments: f2, stored_enchantments: f3, items: f4, nbt: f5, potion: f6, tag: f7 };
                assert(
                    data(values@) =~= Seq::empty()
                        .push(opt_ranged_int_datum(t.count))
                        .push(opt_ranged_int_datum(t.durability))
                        .push(enchantment_list_datum(t.enchantments))
                        .push(enchantment_list_datum(t.stored_enchantments))
                        .push(text_list_datum(t.items))
                        .push(opt_text_datum(t.nbt))
                        .push(opt_text_datum(t.potion))
                        .push(opt_text_datum(t.tag))
                );
                Some(t)
            },
            _ => None,
        }
    }

    /// The reference to the definition of this type.
    pub open spec fn shape() -> Shape {
        Shape::Ref(ITEM as nat)
    }

    /// The node that refers to the definition of this type.
    pub fn node() -> (n: Node)
        ensures
            n.shape() == Self::shape(),
    {
        Node::Ref(ITEM)
    }

    /// Every value of this type is a value of its shape.
    pub proof fn lemma_conforms(&self, level: nat)
        ensures
            conforms(catalog(), level, Self::def_shape(), self.datum()),
            conforms(catalog(), catalog().len(), Self::shape(), self.datum()),
    {
        lemma_catalog();
        self.lemma_conforms_def(ITEM as nat);
        lemma_ref(catalog(), ITEM as nat, self.datum());
        self.lemma_conforms_def(level);
    }

    /// Every value of the shape of this type is the model of one of its values.
    pub proof fn lemma_fits(d: Datum, level: nat)
        requires
            conforms(catalog(), level, Self::def_shape(), d) || conforms(
                catalog(),
                level,
                Self::shape(),
                d,
            ),
        ensures
            Self::valid(d),
    {
        lemma_catalog();
        if conforms(catalog(), level, Self::def_shape(), d) {
            Self::lemma_fits_def(d, level);
        } else {
            lemma_unref(catalog(), level, ITEM as nat, d);
            Self::lemma_fits_def(d, ITEM as nat);
        }
    }

    proof fn lemma_conforms_def(&self, level: nat)
        ensures
            conforms(catalog(), level, Self::def_shape(), self.datum()),
    {
        reveal(Item::def_shape);
        let fs0 = Seq::<FieldShape>::empty();
        let vs0 = Seq::<Datum>::empty();
        lemma_no_fields(catalog(), level);
        opt_ranged_int_conforms(self.count, catalog().len());
        lemma_more_fields(
            catalog(),
            level,
            fs0,
            vs0,
            defaulted("count"@, opt_ranged_int_shape(), Datum::Absent, Omit::IfAbsent),
            opt_ranged_int_datum(self.count),
        );
        let fs1 = fs0.push(
            defaulted("count"@, opt_ranged_int_shape(), Datum::Absent, Omit::IfAbsent)
        );
        let vs1 = vs0.push(opt_ranged_int_datum(self.count));
        opt_ranged_int_conforms(self.durability, catalog().len());
        lemma_more_fields(
            catalog(),
            level,
            fs1,
            vs1,
            defaulted("durability"@, opt_ranged_int_shape(), Datum::Absent, Omit::IfAbsent),
            opt_ranged_int_datum(self.durability),
        );
        let fs2 = fs1.push(
            defaulted("durability"@, opt_ranged_int_shape(), Datum::Absent, Omit::IfAbsent)
        );
        let vs2 = vs1.push(opt_ranged_int_datum(self.durability));
        enchantment_list_conforms(self.enchantments, catalog().len());
        lemma_more_fields(
            catalog(),
            level,
            fs2,
            vs2,
            defaulted(
                "enchantments"@,
                enchantment_list_shape(),
                Datum::List(Seq::empty()),
                Omit::IfEmpty,
            ),
            enchantment_list_datum(self.enchantments),
        );
        let fs3 = fs2.push(
            defaulted(
                "enchantments"@,
                enchantment_list_shape(),
                Datum::List(Seq::empty()),
                Omit::IfEmpty,
            )
        );
        let vs3 = vs2.push(enchantment_list_datum(self.enchantments));
        enchantment_list_conforms(self.stored_enchantments, catalog().len());
        lemma_more_fields(
            catalog(),
            level,
            fs3,
            vs3,
            defaulted(
                "stored_enchantments"@,
                enchantment_list_shape(),
                Datum::List(Seq::empty()),
                Omit::IfEmpty,
            ),
            enchantment_list_datum(self.stored_enchantments),
        );
        let fs4 = fs3.push(
            defaulted(
                "stored_enchantments"@,
                enchantment_list_shape(),
                Datum::List(Seq::empty()),
                Omit::IfEmpty,
            )
        );
        let vs4 = vs3.push(enchantment_list_datum(self.stored_enchantments));
        text_list_conforms(self.items, catalog().len());
        lemma_more_fields(
            catalog(),
            level,
            fs4,
            vs4,
            defaulted("items"@, text_list_shape(), Datum::List(Seq::empty()), Omit::IfEmpty),
            text_list_datum(self.items),
        );
        let fs5 = fs4.push(
            defaulted("items"@, text_list_shape(), Datum::List(Seq::empty()), Omit::IfEmpty)
        );
        let vs5 = vs4.push(text_list_datum(self.items));
        opt_text_conforms(self.nbt, catalog().len());
        lemma_more_fields(
            catalog(),
            level,
            fs5,
            vs5,
            defaulted("nbt"@, opt_text_shape(), Datum::Absent, Omit::IfAbsent),
            opt_text_datum(self.nbt),
        );
        let fs6 = fs5.push(defaulted("nbt"@, opt_text_shape(), Datum::Absent, Omit::IfAbsent));
        let vs6 = vs5.push(opt_text_datum(self.nbt));
        opt_text_conforms(self.potion, catalog().len());
        lemma_more_fields(
            catalog(),
            level,
            fs6,
            vs6,
            defaulted("potion"@, opt_text_shape(), Datum::Absent, Omit::IfAbsent),
            opt_text_datum(self.potion),
        );
        let fs7 = fs6.push(defaulted("potion"@, opt_text_shape(), Datum::Absent, Omit::IfAbsent));
        let vs7 = vs6.push(opt_text_datum(self.potion));
        opt_text_conforms(self.tag, catalog().len());
        lemma_more_fields(
            catalog(),
            level,
            fs7,
            vs7,
            defaulted("tag"@, opt_text_shape(), Datum::Absent, Omit::IfAbsent),
            opt_text_datum(self.tag),
        );
        let fs8 = fs7.push(defaulted("tag"@, opt_text_shape(), Datum::Absent, Omit::IfAbsent));
        let vs8 = vs7.push(opt_text_datum(self.tag));
        lemma_record(catalog(), level, fs8, vs8);
    }

    proof fn lemma_fits_def(d: Datum, level: nat)
        requires
            conforms(catalog(), level, Self::def_shape(), d),
        ensures
            Self::valid(d),
    {
        reveal(Item::def_shape);
        let fields = Self::fields();
        let vs = d->Record_0;
        lemma_field(catalog(), level, fields, d, 0);
        assert(
            fields[0] == defaulted("count"@, opt_ranged_int_shape(), Datum::Absent, Omit::IfAbsent)
        );
        opt_ranged_int_fits(vs[0], catalog().len());
        lemma_field(catalog(), level, fields, d, 1);
        assert(
            fields[1] == defaulted(
                "durability"@,
                opt_ranged_int_shape(),
                Datum::Absent,
                Omit::IfAbsent,
            )
        );
        opt_ranged_int_fits(vs[1], catalog().len());
        lemma_field(catalog(), level, fields, d, 2);
        assert(
            fields[2] == defaulted(
                "enchantments"@,
                enchantment_list_shape(),
                Datum::List(Seq::empty()),
                Omit::IfEmpty,
            )
        );
        enchantment_list_fits(vs[2], catalog().len());
        lemma_field(catalog(), level, fields, d, 3);
        assert(
            fields[3] == defaulted(
                "stored_enchantments"@,
                enchantment_list_shape(),
                Datum::List(Seq::empty()),
                Omit::IfEmpty,
            )
        );
        enchantment_list_fits(vs[3], catalog().len());
        lemma_field(catalog(), level, fields, d, 4);
        assert(
            fields[4] == defaulted(
                "items"@,
                text_list_shape(),
                Datum::List(Seq::empty()),
                Omit::IfEmpty,
            )
        );
        text_list_fits(vs[4], catalog().len());
        lemma_field(catalog(), level, fields, d, 5);
        assert(fields[5] == defaulted("nbt"@, opt_text_shape(), Datum::Absent, Omit::IfAbsent));
        opt_text_fits(vs[5], catalog().len());
        lemma_field(catalog(), level, fields, d, 6);
        assert(fields[6] == defaulted("potion"@, opt_text_shape(), Datum::Absent, Omit::IfAbsent));
        opt_text_fits(vs[6], catalog().len());
        lemma_field(catalog(), level, fields, d, 7);
        assert(fields[7] == defaulted("tag"@, opt_text_shape(), Datum::Absent, Omit::IfAbsent));
        opt_text_fits(vs[7], catalog().len());
    }

    /// Every value of this type can be written and read back as itself.
    pub proof fn lemma_legal(&self, level: nat)
        ensures
            legal(catalog(), level, Self::def_shape(), self.datum()),
            legal(catalog(), catalog().len(), Self::shape(), self.datum()),
            encode_spec(catalog(), level, Self::def_shape(), self.datum()) is Object,
            encode_spec(catalog(), catalog().len(), Self::shape(), self.datum()) is Object,
    {
        lemma_catalog();
        self.lemma_legal_def(ITEM as nat);
        lemma_written_by_reference(catalog(), catalog().len(), ITEM as nat, self.datum());
        self.lemma_legal_def(level);
    }

    proof fn lemma_legal_def(&self, level: nat)
        ensures
            legal(catalog(), level, Self::def_shape(), self.datum()),
            encode_spec(catalog(), level, Self::def_shape(), self.datum()) is Object,
    {
        reveal(Item::def_shape);
        let fs0 = Seq::<FieldShape>::empty();
        let vs0 = Seq::<Datum>::empty();
        lemma_no_fields_legal(catalog(), level);
        opt_ranged_int_legal(self.count, catalog().len());
        lemma_more_fields_legal(
            catalog(),
            level,
            fs0,
            vs0,
            defaulted("count"@, opt_ranged_int_shape(), Datum::Absent, Omit::IfAbsent),
            opt_ranged_int_datum(self.count),
        );
        let fs1 = fs0.push(
            defaulted("count"@, opt_ranged_int_shape(), Datum::Absent, Omit::IfAbsent)
        );
        let vs1 = vs0.push(opt_ranged_int_datum(self.count));
        opt_ranged_int_legal(self.durability, catalog().len());
        lemma_more_fields_legal(
            catalog(),
            level,
            fs1,
            vs1,
            defaulted("durability"@, opt_ranged_int_shape(), Datum::Absent, Omit::IfAbsent),
            opt_ranged_int_datum(self.durability),
        );
        let fs2 = fs1.push(
            defaulted("durability"@, opt_ranged_int_shape(), Datum::Absent, Omit::IfAbsent)
        );
        let vs2 = vs1.push(opt_ranged_int_datum(self.durability));
        enchantment_list_legal(self.enchantments, catalog().len());
        lemma_more_fields_legal(
            catalog(),
            level,
            fs2,
            vs2,
            defaulted(
                "enchantments"@,
                enchantment_list_shape(),
                Datum::List(Seq::empty()),
                Omit::IfEmpty,
            ),
            enchantment_list_datum(self.enchantments),
        );
        let fs3 = fs2.push(
            defaulted(
                "enchantments"@,
                enchantment_list_shape(),
                Datum::List(Seq::empty()),
                Omit::IfEmpty,
            )
        );
        let vs3 = vs2.push(enchantment_list_datum(self.enchantments));
        enchantment_list_legal(self.stored_enchantments, catalog().len());
        lemma_more_fields_legal(
            catalog(),
            level,
            fs3,
            vs3,
            defaulted(
                "stored_enchantments"@,
                enchantment_list_shape(),
                Datum::List(Seq::empty()),
                Omit::IfEmpty,
            ),
            enchantment_list_datum(self.stored_enchantments),
        );
        let fs4 = fs3.push(
            defaulted(
                "stored_enchantments"@,
                enchantment_list_shape(),
                Datum::List(Seq::empty()),
                Omit::IfEmpty,
            )
        );
        let vs4 = vs3.push(enchantment_list_datum(self.stored_enchantments));
        text_list_legal(self.items, catalog().len());
        lemma_more_fields_legal(
            catalog(),
            level,
            fs4,
            vs4,
            defaulted("items"@, text_list_shape(), Datum::List(Seq::empty()), Omit::IfEmpty),
            text_list_datum(self.items),
        );
        let fs5 = fs4.push(
            defaulted("items"@, text_list_shape(), Datum::List(Seq::empty()), Omit::IfEmpty)
        );
        let vs5 = vs4.push(text_list_datum(self.items));
        opt_text_legal(self.nbt, catalog().len());
        lemma_more_fields_legal(
            catalog(),
            level,
            fs5,
            vs5,
            defaulted("nbt"@, opt_text_shape(), Datum::Absent, Omit::IfAbsent),
            opt_text_datum(self.nbt),
        );
        let fs6 = fs5.push(defaulted("nbt"@, opt_text_shape(), Datum::Absent, Omit::IfAbsent));
        let vs6 = vs5.push(opt_text_datum(self.nbt));
        opt_text_legal(self.potion, catalog().len());
        lemma_more_fields_legal(
            catalog(),
            level,
            fs6,
            vs6,
            defaulted("potion"@, opt_text_shape(), Datum::Absent, Omit::IfAbsent),
            opt_text_datum(self.potion),
        );
        let fs7 = fs6.push(defaulted("potion"@, opt_text_shape(), Datum::Absent, Omit::IfAbsent));
        let vs7 = vs6.push(opt_text_datum(self.potion));
        opt_text_legal(self.tag, catalog().len());
        lemma_more_fields_legal(
            catalog(),
            level,
            fs7,
            vs7,
            defaulted("tag"@, opt_text_shape(), Datum::Absent, Omit::IfAbsent),
            opt_text_datum(self.tag),
        );
        let fs8 = fs7.push(defaulted("tag"@, opt_text_shape(), Datum::Absent, Omit::IfAbsent));
        let vs8 = vs7.push(opt_text_datum(self.tag));
        lemma_record_legal(catalog(), level, fs8, vs8);
    }
}

impl Item {
    /// The model of the default value of this type.
    pub open spec fn default_datum() -> Datum {
        Datum::Record(
            Seq::empty()
                .push(Datum::Absent)
                .push(Datum::Absent)
                .push(Datum::List(Seq::empty()))
                .push(Datum::List(Seq::empty()))
                .push(Datum::List(Seq::empty()))
                .push(Datum::Absent)
                .push(Datum::Absent)
                .push(Datum::Absent),
        )
    }
}

impl Default for Item {
    fn default() -> (r: Item)
        ensures
            r.datum() == Item::default_datum(),
    {
        let r = Item { count: None, durability: None, enchantments: Vec::new(), stored_enchantments: Vec::new(), items: Vec::new(), nbt: None, potion: None, tag: None };
        assert(enchantment_list_data(r.enchantments@) =~= Seq::empty());
        assert(enchantment_list_data(r.stored_enchantments@) =~= Seq::empty());
        assert(text_list_data(r.items@) =~= Seq::empty());
        r
    }
}

/// Conditions on a block.
#[derive(Debug, PartialEq, Eq)]
pub struct Block {
    pub blocks: Vec<String>,
    pub tag: Option<String>,
    pub nbt: Option<String>,
    pub state: Vec<(String, PlainValue)>,
}

impl Block {
    /// The model of this value.
    pub open spec fn datum(&self) -> Datum {
        Datum::Record(
            Seq::empty()
                .push(text_list_datum(self.blocks))
                .push(opt_text_datum(self.tag))
                .push(opt_text_datum(self.nbt))
                .push(plain_value_map_datum(self.state)),
        )
    }

    /// Whether `d` is the model of a value of this type.
    pub open spec fn valid(d: Datum) -> bool {
        &&& d matches Datum::Record(vs)
        &&& vs.len() == 4
        &&& text_list_valid(vs[0])
        &&& opt_text_valid(vs[1])
        &&& opt_text_valid(vs[2])
        &&& plain_value_map_valid(vs[3])
    }

    /// The fields of this type, in declaration order.
    pub open spec fn fields() -> Seq<FieldShape> {
        Seq::empty()
            .push(defaulted("blocks"@, text_list_shape(), Datum::List(Seq::empty()), Omit::IfEmpty))
            .push(defaulted("tag"@, opt_text_shape(), Datum::Absent, Omit::IfAbsent))
            .push(defaulted("nbt"@, opt_text_shape(), Datum::Absent, Omit::IfAbsent))
            .push(
                defaulted(
                    "state"@,
                    plain_value_map_shape(),
                    Datum::Dict(Seq::empty()),
                    Omit::IfEmpty,
                )
            )
    }

    /// The shape of the documents of this type.
    #[verifier::opaque]
    pub open spec fn def_shape() -> Shape {
        Shape::Record(Self::fields())
    }

    /// The node of the documents of this type.
    pub fn def_node() -> (n: Node)
        ensures
            n.shape() == Self::def_shape(),
    {
        reveal(Block::def_shape);
        let mut fields = no_fields();
        push_field(
            &mut fields,
            field_defaulted("blocks", text_list_node(), empty_list(), Omit::IfEmpty),
        );
        push_field(
            &mut fields,
            field_defaulted("tag", opt_text_node(), Instance::Absent, Omit::IfAbsent),
        );
        push_field(
            &mut fields,
            field_defaulted("nbt", opt_text_node(), Instance::Absent, Omit::IfAbsent),
        );
        push_field(
            &mut fields,
            field_defaulted("state", plain_value_map_node(), empty_map(), Omit::IfEmpty),
        );
        Node::Record(fields)
    }

    /// This value in generic form.
    pub fn to_instance(&self) -> (x: Instance)
        ensures
            x@ == self.datum(),
    {
        let mut values = no_values();
        push_value(&mut values, text_list_to(&self.blocks));
        push_value(&mut values, opt_text_to(&self.tag));
        push_value(&mut values, opt_text_to(&self.nbt));
        push_value(&mut values, plain_value_map_to(&self.state));
        Instance::Record(values)
    }

    /// The value that an instance stands for, if it stands for one.
    pub fn from_instance(x: &Instance) -> (r: Option<Block>)
        ensures
            match r {
                Some(t) => t.datum() == x@,
                None => !Self::valid(x@),
            },
    {
        match x {
            Instance::Record(values) => {
                assert(x@->Record_0 == data(values@));
                if values.len() != 4 {
                    return None;
                }
                let f0 = match text_list_from(&values[0]) {
                    Some(v) => v,
                    None => {
                        assert(data(values@)[0] == values[0]@);
                        return None;
                    },
                };
                let f1 = match opt_text_from(&values[1]) {
                    Some(v) => v,
                    None => {
                        assert(data(values@)[1] == values[1]@);
                        return None;
                    },
                };
                let f2 = match opt_text_from(&values[2]) {
                    Some(v) => v,
                    None => {
                        assert(data(values@)[2] == values[2]@);
                        return None;
                    },
                };
                let f3 = match plain_value_map_from(&values[3]) {
                    Some(v) => v,
                    None => {
                        assert(data(values@)[3] == values[3]@);
                        return None;
                    },
                };
                let t = Block { blocks: f0, tag: f1, nbt: f2, state: f3 };
                assert(
                    data(values@) =~= Seq::empty()
                        .push(text_list_datum(t.blocks))
                        .push(opt_text_datum(t.tag))
                        .push(opt_text_datum(t.nbt))
                        .push(plain_value_map_datum(t.state))
                );
                Some(t)
            },
            _ => None,
        }
    }

    /// The reference to the definition of this type.
    pub open spec fn shape() -> Shape {
        Shape::Ref(BLOCK as nat)
    }

    /// The node that refers to the definition of this type.
    pub fn node() -> (n: Node)
        ensures
            n.shape() == Self::shape(),
    {
        Node::Ref(BLOCK)
    }

    /// Every value of this type is a value of its shape.
    pub proof fn lemma_conforms(&self, level: nat)
        ensures
            conforms(catalog(), level, Self::def_shape(), self.datum()),
            conforms(catalog(), catalog().len(), Self::shape(), self.datum()),
    {
        lemma_catalog();
        self.lemma_conforms_def(BLOCK as nat);
        lemma_ref(catalog(), BLOCK as nat, self.datum());
        self.lemma_conforms_def(level);
    }

    /// Every value of the shape of this type is the model of one of its values.
    pub proof fn lemma_fits(d: Datum, level: nat)
        requires
            conforms(catalog(), level, Self::def_shape(), d) || conforms(
                catalog(),
                level,
                Self::shape(),
                d,
            ),
        ensures
            Self::valid(d),
    {
        lemma_catalog();
        if conforms(catalog(), level, Self::def_shape(), d) {
            Self::lemma_fits_def(d, level);
        } else {
            lemma_unref(catalog(), level, BLOCK as nat, d);
            Self::lemma_fits_def(d, BLOCK as nat);
        }
    }

    proof fn lemma_conforms_def(&self, level: nat)
        ensures
            conforms(catalog(), level, Self::def_shape(), self.datum()),
    {
        reveal(Block::def_shape);
        let fs0 = Seq::<FieldShape>::empty();
        let vs0 = Seq::<Datum>::empty();
        lemma_no_fields(catalog(), level);
        text_list_conforms(self.blocks, catalog().len());
        lemma_more_fields(
            catalog(),
            level,
            fs0,
            vs0,
            defaulted("blocks"@, text_list_shape(), Datum::List(Seq::empty()), Omit::IfEmpty),
            text_list_datum(self.blocks),
        );
        let fs1 = fs0.push(
            defaulted("blocks"@, text_list_shape(), Datum::List(Seq::empty()), Omit::IfEmpty)
        );
        let vs1 = vs0.push(text_list_datum(self.blocks));
        opt_text_conforms(self.tag, catalog().len());
        lemma_more_fields(
            catalog(),
            level,
            fs1,
            vs1,
            defaulted("tag"@, opt_text_shape(), Datum::Absent, Omit::IfAbsent),
            opt_text_datum(self.tag),
        );
        let fs2 = fs1.push(defaulted("tag"@, opt_text_shape(), Datum::Absent, Omit::IfAbsent));
        let vs2 = vs1.push(opt_text_datum(self.tag));
        opt_text_conforms(self.nbt, catalog().len());
        lemma_more_fields(
            catalog(),
            level,
            fs2,
            vs2,
            defaulted("nbt"@, opt_text_shape(), Datum::Absent, Omit::IfAbsent),
            opt_text_datum(self.nbt),
        );
        let fs3 = fs2.push(defaulted("nbt"@, opt_text_shape(), Datum::Absent, Omit::IfAbsent));
        let vs3 = vs2.push(opt_text_datum(self.nbt));
        plain_value_map_conforms(self.state, catalog().len());
        lemma_more_fields(
            catalog(),
            level,
            fs3,
            vs3,
            defaulted("state"@, plain_value_map_shape(), Datum::Dict(Seq::empty()), Omit::IfEmpty),
            plain_value_map_datum(self.state),
        );
        let fs4 = fs3.push(
            defaulted("state"@, plain_value_map_shape(), Datum::Dict(Seq::empty()), Omit::IfEmpty)
        );
        let vs4 = vs3.push(plain_value_map_datum(self.state));
        lemma_record(catalog(), level, fs4, vs4);
    }

    proof fn lemma_fits_def(d: Datum, level: nat)
        requires
            conforms(catalog(), level, Self::def_shape(), d),
        ensures
            Self::valid(d),
    {
        reveal(Block::def_shape);
        let fields = Self::fields();
        let vs = d->Record_0;
        lemma_field(catalog(), level, fields, d, 0);
        assert(
            fields[0] == defaulted(
                "blocks"@,
                text_list_shape(),
                Datum::List(Seq::empty()),
                Omit::IfEmpty,
            )
        );
        text_list_fits(vs[0], catalog().len());
        lemma_field(catalog(), level, fields, d, 1);
        assert(fields[1] == defaulted("tag"@, opt_text_shape(), Datum::Absent, Omit::IfAbsent));
        opt_text_fits(vs[1], catalog().len());
        lemma_field(catalog(), level, fields, d, 2);
        assert(fields[2] == defaulted("nbt"@, opt_text_shape(), Datum::Absent, Omit::IfAbsent));
        opt_text_fits(vs[2], catalog().len());
        lemma_field(catalog(), level, fields, d, 3);
        assert(
            fields[3] == defaulted(
                "state"@,
                plain_value_map_shape(),
                Datum::Dict(Seq::empty()),
                Omit::IfEmpty,
            )
        );
        plain_value_map_fits(vs[3], catalog().len());
    }

    /// Every value of this type can be written and read back as itself.
    pub proof fn lemma_legal(&self, level: nat)
        ensures
            legal(catalog(), level, Self::def_shape(), self.datum()),
            legal(catalog(), catalog().len(), Self::shape(), self.datum()),
            encode_spec(catalog(), level, Self::def_shape(), self.datum()) is Object,
            encode_spec(catalog(), catalog().len(), Self::shape(), self.datum()) is Object,
    {
        lemma_catalog();
        self.lemma_legal_def(BLOCK as nat);
        lemma_written_by_reference(catalog(), catalog().len(), BLOCK as nat, self.datum());
        self.lemma_legal_def(level);
    }

    proof fn lemma_legal_def(&self, level: nat)
        ensures
            legal(catalog(), level, Self::def_shape(), self.datum()),
            encode_spec(catalog(), level, Self::def_shape(), self.datum()) is Object,
    {
        reveal(Block::def_shape);
        let fs0 = Seq::<FieldShape>::empty();
        let vs0 = Seq::<Datum>::empty();
        lemma_no_fields_legal(catalog(), level);
        text_list_legal(self.blocks, catalog().len());
        lemma_more_fields_legal(
            catalog(),
            level,
            fs0,
            vs0,
            defaulted("blocks"@, text_list_shape(), Datum::List(Seq::empty()), Omit::IfEmpty),
            text_list_datum(self.blocks),
        );
        let fs1 = fs0.push(
            defaulted("blocks"@, text_list_shape(), Datum::List(Seq::empty()), Omit::IfEmpty)
        );
        let vs1 = vs0.push(text_list_datum(self.blocks));
        opt_text_legal(self.tag, catalog().len());
        lemma_more_fields_legal(
            catalog(),
            level,
            fs1,
            vs1,
            defaulted("tag"@, opt_text_shape(), Datum::Absent, Omit::IfAbsent),
            opt_text_datum(self.tag),
        );
        let fs2 = fs1.push(defaulted("tag"@, opt_text_shape(), Datum::Absent, Omit::IfAbsent));
        let vs2 = vs1.push(opt_text_datum(self.tag));
        opt_text_legal(self.nbt, catalog().len());
        lemma_more_fields_legal(
            catalog(),
            level,
            fs2,
            vs2,
            defaulted("nbt"@, opt_text_shape(), Datum::Absent, Omit::IfAbsent),
            opt_text_datum(self.nbt),
        );
        let fs3 = fs2.push(defaulted("nbt"@, opt_text_shape(), Datum::Absent, Omit::IfAbsent));
        let vs3 = vs2.push(opt_text_datum(self.nbt));
        plain_value_map_legal(self.state, catalog().len());
        lemma_more_fields_legal(
            catalog(),
            level,
            fs3,
            vs3,
            defaulted("state"@, plain_value_map_shape(), Datum::Dict(Seq::empty()), Omit::IfEmpty),
            plain_value_map_datum(self.state),
        );
        let fs4 = fs3.push(
            defaulted("state"@, plain_value_map_shape(), Datum::Dict(Seq::empty()), Omit::IfEmpty)
        );
        let vs4 = vs3.push(plain_value_map_datum(self.state));
        lemma_record_legal(catalog(), level, fs4, vs4);
    }
}

impl Block {
    /// The model of the default value of this type.
    pub open spec fn default_datum() -> Datum {
        Datum::Record(
            Seq::empty()
                .push(Datum::List(Seq::empty()))
                .push(Datum::Absent)
                .push(Datum::Absent)
                .push(Datum::Dict(Seq::empty())),
        )
    }
}

impl Default for Block {
    fn default() -> (r: Block)
        ensures
            r.datum() == Block::default_datum(),
    {
        let r = Block { blocks: Vec::new(), tag: None, nbt: None, state: Vec::new() };
        assert(text_list_data(r.blocks@) =~= Seq::empty());
        assert(plain_value_map_entries(r.state@) =~= Seq::empty());
        r
    }
}

/// Conditions on a fluid.
#[derive(Debug, PartialEq, Eq)]
pub struct Fluid {
    pub fluid: Option<String>,
    pub tag: Option<String>,
    pub state: Vec<(String, PlainValue)>,
}

impl Fluid {
    /// The model of this value.
    pub open spec fn datum(&self) -> Datum {
        Datum::Record(
            Seq::empty()
                .push(opt_text_datum(self.fluid))
                .push(opt_text_datum(self.tag))
                .push(plain_value_map_datum(self.state)),
        )
    }

    /// Whether `d` is the model of a value of this type.
    pub open spec fn valid(d: Datum) -> bool {
        &&& d matches Datum::Record(vs)
        &&& vs.len() == 3
        &&& opt_text_valid(vs[0])
        &&& opt_text_valid(vs[1])
        &&& plain_value_map_valid(vs[2])
    }

    /// The fields of this type, in declaration order.
    pub open spec fn fields() -> Seq<FieldShape> {
        Seq::empty()
            .push(defaulted("fluid"@, opt_text_shape(), Datum::Absent, Omit::IfAbsent))
            .push(defaulted("tag"@, opt_text_shape(), Datum::Absent, Omit::IfAbsent))
            .push(
                defaulted(
                    "state"@,
                    plain_value_map_shape(),
                    Datum::Dict(Seq::empty()),
                    Omit::IfEmpty,
                )
            )
    }

    /// The shape of the documents of this type.
    #[verifier::opaque]
    pub open spec fn def_shape() -> Shape {
        Shape::Record(Self::fields())
    }

    /// The node of the documents of this type.
    pub fn def_node() -> (n: Node)
        ensures
            n.shape() == Self::def_shape(),
    {
        reveal(Fluid::def_shape);
        let mut fields = no_fields();
        push_field(
            &mut fields,
            field_defaulted("fluid", opt_text_node(), Instance::Absent, Omit::IfAbsent),
        );
        push_field(
            &mut fields,
            field_defaulted("tag", opt_text_node(), Instance::Absent, Omit::IfAbsent),
        );
        push_field(
            &mut fields,
            field_defaulted("state", plain_value_map_node(), empty_map(), Omit::IfEmpty),
        );
        Node::Record(fields)
    }

    /// This value in generic form.
    pub fn to_instance(&self) -> (x: Instance)
        ensures
            x@ == self.datum(),
    {
        let mut values = no_values();
        push_value(&mut values, opt_text_to(&self.fluid));
        push_value(&mut values, opt_text_to(&self.tag));
        push_value(&mut values, plain_value_map_to(&self.state));
        Instance::Record(values)
    }

    /// The value that an instance stands for, if it stands for one.
    pub fn from_instance(x: &Instance) -> (r: Option<Fluid>)
        ensures
            match r {
                Some(t) => t.datum() == x@,
                None => !Self::valid(x@),
            },
    {
        match x {
            Instance::Record(values) => {
                assert(x@->Record_0 == data(values@));
                if values.len() != 3 {
                    return None;
                }
                let f0 = match opt_text_from(&values[0]) {
                    Some(v) => v,
                    None => {
                        assert(data(values@)[0] == values[0]@);
                        return None;
                    },
                };
                let f1 = match opt_text_from(&values[1]) {
                    Some(v) => v,
                    None => {
                        assert(data(values@)[1] == values[1]@);
                        return None;
                    },
                };
                let f2 = match plain_value_map_from(&values[2]) {
                    Some(v) => v,
                    None => {
                        assert(data(values@)[2] == values[2]@);
                        return None;
                    },
                };
                let t = Fluid { fluid: f0, tag: f1, state: f2 };
                assert(
                    data(values@) =~= Seq::empty()
                        .push(opt_text_datum(t.fluid))
                        .push(opt_text_datum(t.tag))
                        .push(plain_value_map_datum(t.state))
                );
                Some(t)
            },
            _ => None,
        }
    }

    /// The reference to the definition of this type.
    pub open spec fn shape() -> Shape {
        Shape::Ref(FLUID as nat)
    }

    /// The node that refers to the definition of this type.
    pub fn node() -> (n: Node)
        ensures
            n.shape() == Self::shape(),
    {
        Node::Ref(FLUID)
    }

    /// Every value of this type is a value of its shape.
    pub proof fn lemma_conforms(&self, level: nat)
        ensures
            conforms(catalog(), level, Self::def_shape(), self.datum()),
            conforms(catalog(), catalog().len(), Self::shape(), self.datum()),
    {
        lemma_catalog();
        self.lemma_conforms_def(FLUID as nat);
        lemma_ref(catalog(), FLUID as nat, self.datum());
        self.lemma_conforms_def(level);
    }

    /// Every value of the shape of this type is the model of one of its values.
    pub proof fn lemma_fits(d: Datum, level: nat)
        requires
            conforms(catalog(), level, Self::def_shape(), d) || conforms(
                catalog(),
                level,
                Self::shape(),
                d,
            ),
        ensures
            Self::valid(d),
    {
        lemma_catalog();
        if conforms(catalog(), level, Self::def_shape(), d) {
            Self::lemma_fits_def(d, level);
        } else {
            lemma_unref(catalog(), level, FLUID as nat, d);
            Self::lemma_fits_def(d, FLUID as nat);
        }
    }

    proof fn lemma_conforms_def(&self, level: nat)
        ensures
            conforms(catalog(), level, Self::def_shape(), self.datum()),
    {
        reveal(Fluid::def_shape);
        let fs0 = Seq::<FieldShape>::empty();
        let vs0 = Seq::<Datum>::empty();
        lemma_no_fields(catalog(), level);
        opt_text_conforms(self.fluid, catalog().len());
        lemma_more_fields(
            catalog(),
            level,
            fs0,
            vs0,
            defaulted("fluid"@, opt_text_shape(), Datum::Absent, Omit::IfAbsent),
            opt_text_datum(self.fluid),
        );
        let fs1 = fs0.push(defaulted("fluid"@, opt_text_shape(), Datum::Absent, Omit::IfAbsent));
        let vs1 = vs0.push(opt_text_datum(self.fluid));
        opt_text_conforms(self.tag, catalog().len());
        lemma_more_fields(
            catalog(),
            level,
            fs1,
            vs1,
            defaulted("tag"@, opt_text_shape(), Datum::Absent, Omit::IfAbsent),
            opt_text_datum(self.tag),
        );
        let fs2 = fs1.push(defaulted("tag"@, opt_text_shape(), Datum::Absent, Omit::IfAbsent));
        let vs2 = vs1.push(opt_text_datum(self.tag));
        plain_value_map_conforms(self.state, catalog().len());
        lemma_more_fields(
            catalog(),
            level,
            fs2,
            vs2,
            defaulted("state"@, plain_value_map_shape(), Datum::Dict(Seq::empty()), Omit::IfEmpty),
            plain_value_map_datum(self.state),
        );
        let fs3 = fs2.push(
            defaulted("state"@, plain_value_map_shape(), Datum::Dict(Seq::empty()), Omit::IfEmpty)
        );
        let vs3 = vs2.push(plain_value_map_datum(self.state));
        lemma_record(catalog(), level, fs3, vs3);
    }

    proof fn lemma_fits_def(d: Datum, level: nat)
        requires
            conforms(catalog(), level, Self::def_shape(), d),
        ensures
            Self::valid(d),
    {
        reveal(Fluid::def_shape);
        let fields = Self::fields();
        let vs = d->Record_0;
        lemma_field(catalog(), level, fields, d, 0);
        assert(fields[0] == defaulted("fluid"@, opt_text_shape(), Datum::Absent, Omit::IfAbsent));
        opt_text_fits(vs[0], catalog().len());
        lemma_field(catalog(), level, fields, d, 1);
        assert(fields[1] == defaulted("tag"@, opt_text_shape(), Datum::Absent, Omit::IfAbsent));
        opt_text_fits(vs[1], catalog().len());
        lemma_field(catalog(), level, fields, d, 2);
        assert(
            fields[2] == defaulted(
                "state"@,
                plain_value_map_shape(),
                Datum::Dict(Seq::empty()),
                Omit::IfEmpty,
            )
        );
        plain_value_map_fits(vs[2], catalog().len());
    }

    /// Every value of this type can be written and read back as itself.
    pub proof fn lemma_legal(&self, level: nat)
        ensures
            legal(catalog(), level, Self::def_shape(), self.datum()),
            legal(catalog(), catalog().len(), Self::shape(), self.datum()),
            encode_spec(catalog(), level, Self::def_shape(), self.datum()) is Object,
            encode_spec(catalog(), catalog().len(), Self::shape(), self.datum()) is Object,
    {
        lemma_catalog();
        self.lemma_legal_def(FLUID as nat);
        lemma_written_by_reference(catalog(), catalog().len(), FLUID as nat, self.datum());
        self.lemma_legal_def(level);
    }

    proof fn lemma_legal_def(&self, level: nat)
        ensures
            legal(catalog(), level, Self::def_shape(), self.datum()),
            encode_spec(catalog(), level, Self::def_shape(), self.datum()) is Object,
    {
        reveal(Fluid::def_shape);
        let fs0 = Seq::<FieldShape>::empty();
        let vs0 = Seq::<Datum>::empty();
        lemma_no_fields_legal(catalog(), level);
        opt_text_legal(self.fluid, catalog().len());
        lemma_more_fields_legal(
            catalog(),
            level,
            fs0,
            vs0,
            defaulted("fluid"@, opt_text_shape(), Datum::Absent, Omit::IfAbsent),
            opt_text_datum(self.fluid),
        );
        let fs1 = fs0.push(defaulted("fluid"@, opt_text_shape(), Datum::Absent, Omit::IfAbsent));
        let vs1 = vs0.push(opt_text_datum(self.fluid));
        opt_text_legal(self.tag, catalog().len());
        lemma_more_fields_legal(
            catalog(),
            level,
            fs1,
            vs1,
            defaulted("tag"@, opt_text_shape(), Datum::Absent, Omit::IfAbsent),
            opt_text_datum(self.tag),
        );
        let fs2 = fs1.push(defaulted("tag"@, opt_text_shape(), Datum::Absent, Omit::IfAbsent));
        let vs2 = vs1.push(opt_text_datum(self.tag));
        plain_value_map_legal(self.state, catalog().len());
        lemma_more_fields_legal(
            catalog(),
            level,
            fs2,
            vs2,
            defaulted("state"@, plain_value_map_shape(), Datum::Dict(Seq::empty()), Omit::IfEmpty),
            plain_value_map_datum(self.state),
        );
        let fs3 = fs2.push(
            defaulted("state"@, plain_value_map_shape(), Datum::Dict(Seq::empty()), Omit::IfEmpty)
        );
        let vs3 = vs2.push(plain_value_map_datum(self.state));
        lemma_record_legal(catalog(), level, fs3, vs3);
    }
}

impl Fluid {
    /// The model of the default value of this type.
    pub open spec fn default_datum() -> Datum {
        Datum::Record(
            Seq::empty().push(Datum::Absent).push(Datum::Absent).push(Datum::Dict(Seq::empty()))
        )
    }
}

impl Default for Fluid {
    fn default() -> (r: Fluid)
        ensures
            r.datum() == Fluid::default_datum(),
    {
        let r = Fluid { fluid: None, tag: None, state: Vec::new() };
        assert(plain_value_map_entries(r.state@) =~= Seq::empty());
        r
    }
}

/// Conditions on a place in the world.
#[derive(Debug, PartialEq, Eq)]
pub struct Location {
    pub biome: Option<String>,
    pub block: Option<Box<Block>>,
    pub dimension: Option<String>,
    pub feature: Option<String>,
    pub fluid: Option<Box<Fluid>>,
    pub light: Option<Ranged2<i64, i64>>,
    pub position: Option<Box<Vector3d<Ranged2<i64, i64>>>>,
    pub smokey: Option<bool>,
}

impl Location {
    /// The model of this value.
    pub open spec fn datum(&self) -> Datum {
        Datum::Record(
            Seq::empty()
                .push(opt_text_datum(self.biome))
                .push(opt_block_datum(self.block))
                .push(opt_text_datum(self.dimension))
                .push(opt_text_datum(self.feature))
                .push(opt_fluid_datum(self.fluid))
                .push(opt_ranged_int_datum(self.light))
                .push(opt_vector_ranged_int_datum(self.position))
                .push(opt_bool_datum(self.smokey)),
        )
    }

    /// Whether `d` is the model of a value of this type.
    pub open spec fn valid(d: Datum) -> bool {
        &&& d matches Datum::Record(vs)
        &&& vs.len() == 8
        &&& opt_text_valid(vs[0])
        &&& opt_block_valid(vs[1])
        &&& opt_text_valid(vs[2])
        &&& opt_text_valid(vs[3])
        &&& opt_fluid_valid(vs[4])
        &&& opt_ranged_int_valid(vs[5])
        &&& opt_vector_ranged_int_valid(vs[6])
        &&& opt_bool_valid(vs[7])
    }

    /// The fields of this type, in declaration order.
    pub open spec fn fields() -> Seq<FieldShape> {
        Seq::empty()
            .push(defaulted("biome"@, opt_text_shape(), Datum::Absent, Omit::IfAbsent))
            .push(defaulted("block"@, opt_block_shape(), Datum::Absent, Omit::IfAbsent))
            .push(defaulted("dimension"@, opt_text_shape(), Datum::Absent, Omit::IfAbsent))
            .push(defaulted("feature"@, opt_text_shape(), Datum::Absent, Omit::IfAbsent))
            .push(defaulted("fluid"@, opt_fluid_shape(), Datum::Absent, Omit::IfAbsent))
            .push(defaulted("light"@, opt_ranged_int_shape(), Datum::Absent, Omit::IfAbsent))
            .push(
                defaulted("position"@, opt_vector_ranged_int_shape(), Datum::Absent, Omit::IfAbsent)
            )
            .push(defaulted("smokey"@, opt_bool_shape(), Datum::Absent, Omit::IfAbsent))
    }

    /// The shape of the documents of this type.
    #[verifier::opaque]
    pub open spec fn def_shape() -> Shape {
        Shape::Record(Self::fields())
    }

    /// The node of the documents of this type.
    pub fn def_node() -> (n: Node)
        ensures
            n.shape() == Self::def_shape(),
    {
        reveal(Location::def_shape);
        let mut fields = no_fields();
        push_field(
            &mut fields,
            field_defaulted("biome", opt_text_node(), Instance::Absent, Omit::IfAbsent),
        );
        push_field(
            &mut fields,
            field_defaulted("block", opt_block_node(), Instance::Absent, Omit::IfAbsent),
        );
        push_field(
            &mut fields,
            field_defaulted("dimension", opt_text_node(), Instance::Absent, Omit::IfAbsent),
        );
        push_field(
            &mut fields,
            field_defaulted("feature", opt_text_node(), Instance::Absent, Omit::IfAbsent),
        );
        push_field(
            &mut fields,
            field_defaulted("fluid", opt_fluid_node(), Instance::Absent, Omit::IfAbsent),
        );
        push_field(
            &mut fields,
            field_defaulted("light", opt_ranged_int_node(), Instance::Absent, Omit::IfAbsent),
        );
        push_field(
            &mut fields,
            field_defaulted(
                "position",
                opt_vector_ranged_int_node(),
                Instance::Absent,
                Omit::IfAbsent,
            ),
        );
        push_field(
            &mut fields,
            field_defaulted("smokey", opt_bool_node(), Instance::Absent, Omit::IfAbsent),
        );
        Node::Record(fields)
    }

    /// This value in generic form.
    pub fn to_instance(&self) -> (x: Instance)
        ensures
            x@ == self.datum(),
    {
        let mut values = no_values();
        push_value(&mut values, opt_text_to(&self.biome));
        push_value(&mut values, opt_block_to(&self.block));
        push_value(&mut values, opt_text_to(&self.dimension));
        push_value(&mut values, opt_text_to(&self.feature));
        push_value(&mut values, opt_fluid_to(&self.fluid));
        push_value(&mut values, opt_ranged_int_to(&self.light));
        push_value(&mut values, opt_vector_ranged_int_to(&self.position));
        push_value(&mut values, opt_bool_to(&self.smokey));
        Instance::Record(values)
    }

    /// The value that an instance stands for, if it stands for one.
    pub fn from_instance(x: &Instance) -> (r: Option<Location>)
        ensures
            match r {
                Some(t) => t.datum() == x@,
                None => !Self::valid(x@),
            },
    {
        match x {
            Instance::Record(values) => {
                assert(x@->Record_0 == data(values@));
                if values.len() != 8 {
                    return None;
                }
                let f0 = match opt_text_from(&values[0]) {
                    Some(v) => v,
                    None => {
                        assert(data(values@)[0] == values[0]@);
                        return None;
                    },
                };
                let f1 = match opt_block_from(&values[1]) {
                    Some(v) => v,
                    None => {
                        assert(data(values@)[1] == values[1]@);
                        return None;
                    },
                };
                let f2 = match opt_text_from(&values[2]) {
                    Some(v) => v,
                    None => {
                        assert(data(values@)[2] == values[2]@);
                        return None;
                    },
                };
                let f3 = match opt_text_from(&values[3]) {
                    Some(v) => v,
                    None => {
                        assert(data(values@)[3] == values[3]@);
                        return None;
                    },
                };
                let f4 = match opt_fluid_from(&values[4]) {
                    Some(v) => v,
                    None => {
                        assert(data(values@)[4] == values[4]@);
                        return None;
                    },
                };
                let f5 = match opt_ranged_int_from(&values[5]) {
                    Some(v) => v,
                    None => {
                        assert(data(values@)[5] == values[5]@);
                        return None;
                    },
                };
                let f6 = match opt_vector_ranged_int_from(&values[6]) {
                    Some(v) => v,
                    None => {
                        assert(data(values@)[6] == values[6]@);
                        return None;
                    },
                };
                let f7 = match opt_bool_from(&values[7]) {
                    Some(v) => v,
                    None => {
                        assert(data(values@)[7] == values[7]@);
                        return None;
                    },
                };
                let t = Location { biome: f0, block: f1, dimension: f2, feature: f3, fluid: f4, light: f5, position: f6, smokey: f7 };
                assert(
                    data(values@) =~= Seq::empty()
                        .push(opt_text_datum(t.biome))
                        .push(opt_block_datum(t.block))
                        .push(opt_text_datum(t.dimension))
                        .push(opt_text_datum(t.feature))
                        .push(opt_fluid_datum(t.fluid))
                        .push(opt_ranged_int_datum(t.light))
                        .push(opt_vector_ranged_int_datum(t.position))
                        .push(opt_bool_datum(t.smokey))
                );
                Some(t)
            },
            _ => None,
        }
    }

    /// The reference to the definition of this type.
    pub open spec fn shape() -> Shape {
        Shape::Ref(LOCATION as nat)
    }

    /// The node that refers to the definition of this type.
    pub fn node() -> (n: Node)
        ensures
            n.shape() == Self::shape(),
    {
        Node::Ref(LOCATION)
    }

    /// Every value of this type is a value of its shape.
    pub proof fn lemma_conforms(&self, level: nat)
        ensures
            conforms(catalog(), level, Self::def_shape(), self.datum()),
            conforms(catalog(), catalog().len(), Self::shape(), self.datum()),
    {
        lemma_catalog();
        self.lemma_conforms_def(LOCATION as nat);
        lemma_ref(catalog(), LOCATION as nat, self.datum());
        self.lemma_conforms_def(level);
    }

    /// Every value of the shape of this type is the model of one of its values.
    pub proof fn lemma_fits(d: Datum, level: nat)
        requires
            conforms(catalog(), level, Self::def_shape(), d) || conforms(
                catalog(),
                level,
                Self::shape(),
                d,
            ),
        ensures
            Self::valid(d),
    {
        lemma_catalog();
        if conforms(catalog(), level, Self::def_shape(), d) {
            Self::lemma_fits_def(d, level);
        } else {
            lemma_unref(catalog(), level, LOCATION as nat, d);
            Self::lemma_fits_def(d, LOCATION as nat);
        }
    }

    proof fn lemma_conforms_def(&self, level: nat)
        ensures
            conforms(catalog(), level, Self::def_shape(), self.datum()),
    {
        reveal(Location::def_shape);
        let fs0 = Seq::<FieldShape>::empty();
        let vs0 = Seq::<Datum>::empty();
        lemma_no_fields(catalog(), level);
        opt_text_conforms(self.biome, catalog().len());
        lemma_more_fields(
            catalog(),
            level,
            fs0,
            vs0,
            defaulted("biome"@, opt_text_shape(), Datum::Absent, Omit::IfAbsent),
            opt_text_datum(self.biome),
        );
        let fs1 = fs0.push(defaulted("biome"@, opt_text_shape(), Datum::Absent, Omit::IfAbsent));
        let vs1 = vs0.push(opt_text_datum(self.biome));
        opt_block_conforms(self.block, catalog().len());
        lemma_more_fields(
            catalog(),
            level,
            fs1,
            vs1,
            defaulted("block"@, opt_block_shape(), Datum::Absent, Omit::IfAbsent),
            opt_block_datum(self.block),
        );
        let fs2 = fs1.push(defaulted("block"@, opt_block_shape(), Datum::Absent, Omit::IfAbsent));
        let vs2 = vs1.push(opt_block_datum(self.block));
        opt_text_conforms(self.dimension, catalog().len());
        lemma_more_fields(
            catalog(),
            level,
            fs2,
            vs2,
            defaulted("dimension"@, opt_text_shape(), Datum::Absent, Omit::IfAbsent),
            opt_text_datum(self.dimension),
        );
        let fs3 = fs2.push(
            defaulted("dimension"@, opt_text_shape(), Datum::Absent, Omit::IfAbsent)
        );
        let vs3 = vs2.push(opt_text_datum(self.dimension));
        opt_text_conforms(self.feature, catalog().len());
        lemma_more_fields(
            catalog(),
            level,
            fs3,
            vs3,
            defaulted("feature"@, opt_text_shape(), Datum::Absent, Omit::IfAbsent),
            opt_text_datum(self.feature),
        );
        let fs4 = fs3.push(defaulted("feature"@, opt_text_shape(), Datum::Absent, Omit::IfAbsent));
        let vs4 = vs3.push(opt_text_datum(self.feature));
        opt_fluid_conforms(self.fluid, catalog().len());
        lemma_more_fields(
            catalog(),
            level,
            fs4,
            vs4,
            defaulted("fluid"@, opt_fluid_shape(), Datum::Absent, Omit::IfAbsent),
            opt_fluid_datum(self.fluid),
        );
        let fs5 = fs4.push(defaulted("fluid"@, opt_fluid_shape(), Datum::Absent, Omit::IfAbsent));
        let vs5 = vs4.push(opt_fluid_datum(self.fluid));
        opt_ranged_int_conforms(self.light, catalog().len());
        lemma_more_fields(
            catalog(),
            level,
            fs5,
            vs5,
            defaulted("light"@, opt_ranged_int_shape(), Datum::Absent, Omit::IfAbsent),
            opt_ranged_int_datum(self.light),
        );
        let fs6 = fs5.push(
            defaulted("light"@, opt_ranged_int_shape(), Datum::Absent, Omit::IfAbsent)
        );
        let vs6 = vs5.push(opt_ranged_int_datum(self.light));
        opt_vector_ranged_int_conforms(self.position, catalog().len());
        lemma_more_fields(
            catalog(),
            level,
            fs6,
            vs6,
            defaulted("position"@, opt_vector_ranged_int_shape(), Datum::Absent, Omit::IfAbsent),
            opt_vector_ranged_int_datum(self.position),
        );
        let fs7 = fs6.push(
            defaulted("position"@, opt_vector_ranged_int_shape(), Datum::Absent, Omit::IfAbsent)
        );
        let vs7 = vs6.push(opt_vector_ranged_int_datum(self.position));
        opt_bool_conforms(self.smokey, catalog().len());
        lemma_more_fields(
            catalog(),
            level,
            fs7,
            vs7,
            defaulted("smokey"@, opt_bool_shape(), Datum::Absent, Omit::IfAbsent),
            opt_bool_datum(self.smokey),
        );
        let fs8 = fs7.push(defaulted("smokey"@, opt_bool_shape(), Datum::Absent, Omit::IfAbsent));
        let vs8 = vs7.push(opt_bool_datum(self.smokey));
        lemma_record(catalog(), level, fs8, vs8);
    }

    proof fn lemma_fits_def(d: Datum, level: nat)
        requires
            conforms(catalog(), level, Self::def_shape(), d),
        ensures
            Self::valid(d),
    {
        reveal(Location::def_shape);
        let fields = Self::fields();
        let vs = d->Record_0;
        lemma_field(catalog(), level, fields, d, 0);
        assert(fields[0] == defaulted("biome"@, opt_text_shape(), Datum::Absent, Omit::IfAbsent));
        opt_text_fits(vs[0], catalog().len());
        lemma_field(catalog(), level, fields, d, 1);
        assert(fields[1] == defaulted("block"@, opt_block_shape(), Datum::Absent, Omit::IfAbsent));
        opt_block_fits(vs[1], catalog().len());
        lemma_field(catalog(), level, fields, d, 2);
        assert(
            fields[2] == defaulted("dimension"@, opt_text_shape(), Datum::Absent, Omit::IfAbsent)
        );
        opt_text_fits(vs[2], catalog().len());
        lemma_field(catalog(), level, fields, d, 3);
        assert(fields[3] == defaulted("feature"@, opt_text_shape(), Datum::Absent, Omit::IfAbsent));
        opt_text_fits(vs[3], catalog().len());
        lemma_field(catalog(), level, fields, d, 4);
        assert(fields[4] == defaulted("fluid"@, opt_fluid_shape(), Datum::Absent, Omit::IfAbsent));
        opt_fluid_fits(vs[4], catalog().len());
        lemma_field(catalog(), level, fields, d, 5);
        assert(
            fields[5] == defaulted("light"@, opt_ranged_int_shape(), Datum::Absent, Omit::IfAbsent)
        );
        opt_ranged_int_fits(vs[5], catalog().len());
        lemma_field(catalog(), level, fields, d, 6);
        assert(
            fields[6] == defaulted(
                "position"@,
                opt_vector_ranged_int_shape(),
                Datum::Absent,
                Omit::IfAbsent,
            )
        );
        opt_vector_ranged_int_fits(vs[6], catalog().len());
        lemma_field(catalog(), level, fields, d, 7);
        assert(fields[7] == defaulted("smokey"@, opt_bool_shape(), Datum::Absent, Omit::IfAbsent));
        opt_bool_fits(vs[7], catalog().len());
    }

    /// Every value of this type can be written and read back as itself.
    pub proof fn lemma_legal(&self, level: nat)
        ensures
            legal(catalog(), level, Self::def_shape(), self.datum()),
            legal(catalog(), catalog().len(), Self::shape(), self.datum()),
            encode_spec(catalog(), level, Self::def_shape(), self.datum()) is Object,
            encode_spec(catalog(), catalog().len(), Self::shape(), self.datum()) is Object,
    {
        lemma_catalog();
        self.lemma_legal_def(LOCATION as nat);
        lemma_written_by_reference(catalog(), catalog().len(), LOCATION as nat, self.datum());
        self.lemma_legal_def(level);
    }

    proof fn lemma_legal_def(&self, level: nat)
        ensures
            legal(catalog(), level, Self::def_shape(), self.datum()),
            encode_spec(catalog(), level, Self::def_shape(), self.datum()) is Object,
    {
        reveal(Location::def_shape);
        let fs0 = Seq::<FieldShape>::empty();
        let vs0 = Seq::<Datum>::empty();
        lemma_no_fields_legal(catalog(), level);
        opt_text_legal(self.biome, catalog().len());
        lemma_more_fields_legal(
            catalog(),
            level,
            fs0,
            vs0,
            defaulted("biome"@, opt_text_shape(), Datum::Absent, Omit::IfAbsent),
            opt_text_datum(self.biome),
        );
        let fs1 = fs0.push(defaulted("biome"@, opt_text_shape(), Datum::Absent, Omit::IfAbsent));
        let vs1 = vs0.push(opt_text_datum(self.biome));
        opt_block_legal(self.block, catalog().len());
        lemma_more_fields_legal(
            catalog(),
            level,
            fs1,
            vs1,
            defaulted("block"@, opt_block_shape(), Datum::Absent, Omit::IfAbsent),
            opt_block_datum(self.block),
        );
        let fs2 = fs1.push(defaulted("block"@, opt_block_shape(), Datum::Absent, Omit::IfAbsent));
        let vs2 = vs1.push(opt_block_datum(self.block));
        opt_text_legal(self.dimension, catalog().len());
        lemma_more_fields_legal(
            catalog(),
            level,
            fs2,
            vs2,
            defaulted("dimension"@, opt_text_shape(), Datum::Absent, Omit::IfAbsent),
            opt_text_datum(self.dimension),
        );
        let fs3 = fs2.push(
            defaulted("dimension"@, opt_text_shape(), Datum::Absent, Omit::IfAbsent)
        );
        let vs3 = vs2.push(opt_text_datum(self.dimension));
        opt_text_legal(self.feature, catalog().len());
        lemma_more_fields_legal(
            catalog(),
            level,
            fs3,
            vs3,
            defaulted("feature"@, opt_text_shape(), Datum::Absent, Omit::IfAbsent),
            opt_text_datum(self.feature),
        );
        let fs4 = fs3.push(defaulted("feature"@, opt_text_shape(), Datum::Absent, Omit::IfAbsent));
        let vs4 = vs3.push(opt_text_datum(self.feature));
        opt_fluid_legal(self.fluid, catalog().len());
        lemma_more_fields_legal(
            catalog(),
            level,
            fs4,
            vs4,
            defaulted("fluid"@, opt_fluid_shape(), Datum::Absent, Omit::IfAbsent),
            opt_fluid_datum(self.fluid),
        );
        let fs5 = fs4.push(defaulted("fluid"@, opt_fluid_shape(), Datum::Absent, Omit::IfAbsent));
        let vs5 = vs4.push(opt_fluid_datum(self.fluid));
        opt_ranged_int_legal(self.light, catalog().len());
        lemma_more_fields_legal(
            catalog(),
            level,
            fs5,
            vs5,
            defaulted("light"@, opt_ranged_int_shape(), Datum::Absent, Omit::IfAbsent),
            opt_ranged_int_datum(self.light),
        );
        let fs6 = fs5.push(
            defaulted("light"@, opt_ranged_int_shape(), Datum::Absent, Omit::IfAbsent)
        );
        let vs6 = vs5.push(opt_ranged_int_datum(self.light));
        opt_vector_ranged_int_legal(self.position, catalog().len());
        lemma_more_fields_legal(
            catalog(),
            level,
            fs6,
            vs6,
            defaulted("position"@, opt_vector_ranged_int_shape(), Datum::Absent, Omit::IfAbsent),
            opt_vector_ranged_int_datum(self.position),
        );
        let fs7 = fs6.push(
            defaulted("position"@, opt_vector_ranged_int_shape(), Datum::Absent, Omit::IfAbsent)
        );
        let vs7 = vs6.push(opt_vector_ranged_int_datum(self.position));
        opt_bool_legal(self.smokey, catalog().len());
        lemma_more_fields_legal(
            catalog(),
            level,
            fs7,
            vs7,
            defaulted("smokey"@, opt_bool_shape(), Datum::Absent, Omit::IfAbsent),
            opt_bool_datum(self.smokey),
        );
        let fs8 = fs7.push(defaulted("smokey"@, opt_bool_shape(), Datum::Absent, Omit::IfAbsent));
        let vs8 = vs7.push(opt_bool_datum(self.smokey));
        lemma_record_legal(catalog(), level, fs8, vs8);
    }
}

impl Location {
    /// The model of the default value of this type.
    pub open spec fn default_datum() -> Datum {
        Datum::Record(
            Seq::empty()
                .push(Datum::Absent)
                .push(Datum::Absent)
                .push(Datum::Absent)
                .push(Datum::Absent)
                .push(Datum::Absent)
                .push(Datum::Absent)
                .push(Datum::Absent)
                .push(Datum::Absent),
        )
    }
}

impl Default for Location {
    fn default() -> (r: Location)
        ensures
            r.datum() == Location::default_datum(),
    {
        let r = Location { biome: None, block: None, dimension: None, feature: None, fluid: None, light: None, position: None, smokey: None };
        r
    }
}

/// Conditions on the distance between two places.
#[derive(Debug, PartialEq, Eq)]
pub struct Distance {
    pub absolute: Option<Ranged2<i64, i64>>,
    pub horizontal: Option<Ranged2<i64, i64>>,
    pub components: Vector3d<Ranged2<i64, i64>>,
}

impl Distance {
    /// The model of this value.
    pub open spec fn datum(&self) -> Datum {
        Datum::Record(
            Seq::empty()
                .push(opt_ranged_int_datum(self.absolute))
                .push(opt_ranged_int_datum(self.horizontal))
                .push(vector_ranged_int_datum(self.components)),
        )
    }

    /// Whether `d` is the model of a value of this type.
    pub open spec fn valid(d: Datum) -> bool {
        &&& d matches Datum::Record(vs)
        &&& vs.len() == 3
        &&& opt_ranged_int_valid(vs[0])
        &&& opt_ranged_int_valid(vs[1])
        &&& vector_ranged_int_valid(vs[2])
    }

    /// The fields of this type, in declaration order.
    pub open spec fn fields() -> Seq<FieldShape> {
        Seq::empty()
            .push(defaulted("absolute"@, opt_ranged_int_shape(), Datum::Absent, Omit::IfAbsent))
            .push(defaulted("horizontal"@, opt_ranged_int_shape(), Datum::Absent, Omit::IfAbsent))
            .push(flattened("components"@, vector_ranged_int_shape()))
    }

    /// The shape of the documents of this type.
    #[verifier::opaque]
    pub open spec fn def_shape() -> Shape {
        Shape::Record(Self::fields())
    }

    /// The node of the documents of this type.
    pub fn def_node() -> (n: Node)
        ensures
            n.shape() == Self::def_shape(),
    {
        reveal(Distance::def_shape);
        let mut fields = no_fields();
        push_field(
            &mut fields,
            field_defaulted("absolute", opt_ranged_int_node(), Instance::Absent, Omit::IfAbsent),
        );
        push_field(
            &mut fields,
            field_defaulted("horizontal", opt_ranged_int_node(), Instance::Absent, Omit::IfAbsent),
        );
        push_field(&mut fields, field_flattened("components", vector_ranged_int_node()));
        Node::Record(fields)
    }

    /// This value in generic form.
    pub fn to_instance(&self) -> (x: Instance)
        ensures
            x@ == self.datum(),
    {
        let mut values = no_values();
        push_value(&mut values, opt_ranged_int_to(&self.absolute));
        push_value(&mut values, opt_ranged_int_to(&self.horizontal));
        push_value(&mut values, vector_ranged_int_to(&self.components));
        Instance::Record(values)
    }

    /// The value that an instance stands for, if it stands for one.
    pub fn from_instance(x: &Instance) -> (r: Option<Distance>)
        ensures
            match r {
                Some(t) => t.datum() == x@,
                None => !Self::valid(x@),
            },
    {
        match x {
            Instance::Record(values) => {
                assert(x@->Record_0 == data(values@));
                if values.len() != 3 {
                    return None;
                }
                let f0 = match opt_ranged_int_from(&values[0]) {
                    Some(v) => v,
                    None => {
                        assert(data(values@)[0] == values[0]@);
                        return None;
                    },
                };
                let f1 = match opt_ranged_int_from(&values[1]) {
                    Some(v) => v,
                    None => {
                        assert(data(values@)[1] == values[1]@);
                        return None;
                    },
                };
                let f2 = match vector_ranged_int_from(&values[2]) {
                    Some(v) => v,
                    None => {
                        assert(data(values@)[2] == values[2]@);
                        return None;
                    },
                };
                let t = Distance { absolute: f0, horizontal: f1, components: f2 };
                assert(
                    data(values@) =~= Seq::empty()
                        .push(opt_ranged_int_datum(t.absolute))
                        .push(opt_ranged_int_datum(t.horizontal))
                        .push(vector_ranged_int_datum(t.components))
                );
                Some(t)
            },
            _ => None,
        }
    }

    /// The reference to the definition of this type.
    pub open spec fn shape() -> Shape {
        Shape::Ref(DISTANCE as nat)
    }

    /// The node that refers to the definition of this type.
    pub fn node() -> (n: Node)
        ensures
            n.shape() == Self::shape(),
    {
        Node::Ref(DISTANCE)
    }

    /// Every value of this type is a value of its shape.
    pub proof fn lemma_conforms(&self, level: nat)
        ensures
            conforms(catalog(), level, Self::def_shape(), self.datum()),
            conforms(catalog(), catalog().len(), Self::shape(), self.datum()),
    {
        lemma_catalog();
        self.lemma_conforms_def(DISTANCE as nat);
        lemma_ref(catalog(), DISTANCE as nat, self.datum());
        self.lemma_conforms_def(level);
    }

    /// Every value of the shape of this type is the model of one of its values.
    pub proof fn lemma_fits(d: Datum, level: nat)
        requires
            conforms(catalog(), level, Self::def_shape(), d) || conforms(
                catalog(),
                level,
                Self::shape(),
                d,
            ),
        ensures
            Self::valid(d),
    {
        lemma_catalog();
        if conforms(catalog(), level, Self::def_shape(), d) {
            Self::lemma_fits_def(d, level);
        } else {
            lemma_unref(catalog(), level, DISTANCE as nat, d);
            Self::lemma_fits_def(d, DISTANCE as nat);
        }
    }

    proof fn lemma_conforms_def(&self, level: nat)
        ensures
            conforms(catalog(), level, Self::def_shape(), self.datum()),
    {
        reveal(Distance::def_shape);
        let fs0 = Seq::<FieldShape>::empty();
        let vs0 = Seq::<Datum>::empty();
        lemma_no_fields(catalog(), level);
        opt_ranged_int_conforms(self.absolute, catalog().len());
        lemma_more_fields(
            catalog(),
            level,
            fs0,
            vs0,
            defaulted("absolute"@, opt_ranged_int_shape(), Datum::Absent, Omit::IfAbsent),
            opt_ranged_int_datum(self.absolute),
        );
        let fs1 = fs0.push(
            defaulted("absolute"@, opt_ranged_int_shape(), Datum::Absent, Omit::IfAbsent)
        );
        let vs1 = vs0.push(opt_ranged_int_datum(self.absolute));
        opt_ranged_int_conforms(self.horizontal, catalog().len());
        lemma_more_fields(
            catalog(),
            level,
            fs1,
            vs1,
            defaulted("horizontal"@, opt_ranged_int_shape(), Datum::Absent, Omit::IfAbsent),
            opt_ranged_int_datum(self.horizontal),
        );
        let fs2 = fs1.push(
            defaulted("horizontal"@, opt_ranged_int_shape(), Datum::Absent, Omit::IfAbsent)
        );
        let vs2 = vs1.push(opt_ranged_int_datum(self.horizontal));
        vector_ranged_int_conforms(self.components, level);
        lemma_more_fields(
            catalog(),
            level,
            fs2,
            vs2,
            flattened("components"@, vector_ranged_int_shape()),
            vector_ranged_int_datum(self.components),
        );
        let fs3 = fs2.push(flattened("components"@, vector_ranged_int_shape()));
        let vs3 = vs2.push(vector_ranged_int_datum(self.components));
        lemma_record(catalog(), level, fs3, vs3);
    }

    proof fn lemma_fits_def(d: Datum, level: nat)
        requires
            conforms(catalog(), level, Self::def_shape(), d),
        ensures
            Self::valid(d),
    {
        reveal(Distance::def_shape);
        let fields = Self::fields();
        let vs = d->Record_0;
        lemma_field(catalog(), level, fields, d, 0);
        assert(
            fields[0] == defaulted(
                "absolute"@,
                opt_ranged_int_shape(),
                Datum::Absent,
                Omit::IfAbsent,
            )
        );
        opt_ranged_int_fits(vs[0], catalog().len());
        lemma_field(catalog(), level, fields, d, 1);
        assert(
            fields[1] == defaulted(
                "horizontal"@,
                opt_ranged_int_shape(),
                Datum::Absent,
                Omit::IfAbsent,
            )
        );
        opt_ranged_int_fits(vs[1], catalog().len());
        lemma_field(catalog(), level, fields, d, 2);
        assert(fields[2] == flattened("components"@, vector_ranged_int_shape()));
        vector_ranged_int_fits(vs[2], level);
    }

    /// Every value of this type can be written and read back as itself.
    pub proof fn lemma_legal(&self, level: nat)
        ensures
            legal(catalog(), level, Self::def_shape(), self.datum()),
            legal(catalog(), catalog().len(), Self::shape(), self.datum()),
            encode_spec(catalog(), level, Self::def_shape(), self.datum()) is Object,
            encode_spec(catalog(), catalog().len(), Self::shape(), self.datum()) is Object,
    {
        lemma_catalog();
        self.lemma_legal_def(DISTANCE as nat);
        lemma_written_by_reference(catalog(), catalog().len(), DISTANCE as nat, self.datum());
        self.lemma_legal_def(level);
    }

    proof fn lemma_legal_def(&self, level: nat)
        ensures
            legal(catalog(), level, Self::def_shape(), self.datum()),
            encode_spec(catalog(), level, Self::def_shape(), self.datum()) is Object,
    {
        reveal(Distance::def_shape);
        let fs0 = Seq::<FieldShape>::empty();
        let vs0 = Seq::<Datum>::empty();
        lemma_no_fields_legal(catalog(), level);
        opt_ranged_int_legal(self.absolute, catalog().len());
        lemma_more_fields_legal(
            catalog(),
            level,
            fs0,
            vs0,
            defaulted("absolute"@, opt_ranged_int_shape(), Datum::Absent, Omit::IfAbsent),
            opt_ranged_int_datum(self.absolute),
        );
        let fs1 = fs0.push(
            defaulted("absolute"@, opt_ranged_int_shape(), Datum::Absent, Omit::IfAbsent)
        );
        let vs1 = vs0.push(opt_ranged_int_datum(self.absolute));
        opt_ranged_int_legal(self.horizontal, catalog().len());
        lemma_more_fields_legal(
            catalog(),
            level,
            fs1,
            vs1,
            defaulted("horizontal"@, opt_ranged_int_shape(), Datum::Absent, Omit::IfAbsent),
            opt_ranged_int_datum(self.horizontal),
        );
        let fs2 = fs1.push(
            defaulted("horizontal"@, opt_ranged_int_shape(), Datum::Absent, Omit::IfAbsent)
        );
        let vs2 = vs1.push(opt_ranged_int_datum(self.horizontal));
        vector_ranged_int_legal(self.components, level);
        lemma_more_fields_legal(
            catalog(),
            level,
            fs2,
            vs2,
            flattened("components"@, vector_ranged_int_shape()),
            vector_ranged_int_datum(self.components),
        );
        let fs3 = fs2.push(flattened("components"@, vector_ranged_int_shape()));
        let vs3 = vs2.push(vector_ranged_int_datum(self.components));
        lemma_record_legal(catalog(), level, fs3, vs3);
    }
}

impl Distance {
    /// The model of the default value of this type.
    pub open spec fn default_datum() -> Datum {
        Datum::Record(
            Seq::empty()
                .push(Datum::Absent)
                .push(Datum::Absent)
                .push(
                    Datum::Record(
                        Seq::empty().push(Datum::Absent).push(Datum::Absent).push(Datum::Absent)
                    )
                ),
        )
    }
}

impl Default for Distance {
    fn default() -> (r: Distance)
        ensures
            r.datum() == Distance::default_datum(),
    {
        let r = Distance { absolute: None, horizontal: None, components: Vector3d::default() };
        r
    }
}

/// Conditions on one status effect.
#[derive(Debug, PartialEq, Eq)]
pub struct Effect {
    pub ambient: Option<bool>,
    pub amplifier: Option<Ranged2<i64, i64>>,
    pub duration: Option<Ranged2<i64, i64>>,
    pub visible: Option<bool>,
}

impl Effect {
    /// The model of this value.
    pub open spec fn datum(&self) -> Datum {
        Datum::Record(
            Seq::empty()
                .push(opt_bool_datum(self.ambient))
                .push(opt_ranged_int_datum(self.amplifier))
                .push(opt_ranged_int_datum(self.duration))
                .push(opt_bool_datum(self.visible)),
        )
    }

    /// Whether `d` is the model of a value of this type.
    pub open spec fn valid(d: Datum) -> bool {
        &&& d matches Datum::Record(vs)
        &&& vs.len() == 4
        &&& opt_bool_valid(vs[0])
        &&& opt_ranged_int_valid(vs[1])
        &&& opt_ranged_int_valid(vs[2])
        &&& opt_bool_valid(vs[3])
    }

    /// The fields of this type, in declaration order.
    pub open spec fn fields() -> Seq<FieldShape> {
        Seq::empty()
            .push(defaulted("ambient"@, opt_bool_shape(), Datum::Absent, Omit::IfAbsent))
            .push(defaulted("amplifier"@, opt_ranged_int_shape(), Datum::Absent, Omit::IfAbsent))
            .push(defaulted("duration"@, opt_ranged_int_shape(), Datum::Absent, Omit::IfAbsent))
            .push(defaulted("visible"@, opt_bool_shape(), Datum::Absent, Omit::IfAbsent))
    }

    /// The shape of the documents of this type.
    #[verifier::opaque]
    pub open spec fn def_shape() -> Shape {
        Shape::Record(Self::fields())
    }

    /// The node of the documents of this type.
    pub fn def_node() -> (n: Node)
        ensures
            n.shape() == Self::def_shape(),
    {
        reveal(Effect::def_shape);
        let mut fields = no_fields();
        push_field(
            &mut fields,
            field_defaulted("ambient", opt_bool_node(), Instance::Absent, Omit::IfAbsent),
        );
        push_field(
            &mut fields,
            field_defaulted("amplifier", opt_ranged_int_node(), Instance::Absent, Omit::IfAbsent),
        );
        push_field(
            &mut fields,
            field_defaulted("duration", opt_ranged_int_node(), Instance::Absent, Omit::IfAbsent),
        );
        push_field(
            &mut fields,
            field_defaulted("visible", opt_bool_node(), Instance::Absent, Omit::IfAbsent),
        );
        Node::Record(fields)
    }

    /// This value in generic form.
    pub fn to_instance(&self) -> (x: Instance)
        ensures
            x@ == self.datum(),
    {
        let mut values = no_values();
        push_value(&mut values, opt_bool_to(&self.ambient));
        push_value(&mut values, opt_ranged_int_to(&self.amplifier));
        push_value(&mut values, opt_ranged_int_to(&self.duration));
        push_value(&mut values, opt_bool_to(&self.visible));
        Instance::Record(values)
    }

    /// The value that an instance stands for, if it stands for one.
    pub fn from_instance(x: &Instance) -> (r: Option<Effect>)
        ensures
            match r {
                Some(t) => t.datum() == x@,
                None => !Self::valid(x@),
            },
    {
        match x {
            Instance::Record(values) => {
                assert(x@->Record_0 == data(values@));
                if values.len() != 4 {
                    return None;
                }
                let f0 = match opt_bool_from(&values[0]) {
                    Some(v) => v,
                    None => {
                        assert(data(values@)[0] == values[0]@);
                        return None;
                    },
                };
                let f1 = match opt_ranged_int_from(&values[1]) {
                    Some(v) => v,
                    None => {
                        assert(data(values@)[1] == values[1]@);
                        return None;
                    },
                };
                let f2 = match opt_ranged_int_from(&values[2]) {
                    Some(v) => v,
                    None => {
                        assert(data(values@)[2] == values[2]@);
                        return None;
                    },
                };
                let f3 = match opt_bool_from(&values[3]) {
                    Some(v) => v,
                    None => {
                        assert(data(values@)[3] == values[3]@);
                        return None;
                    },
                };
                let t = Effect { ambient: f0, amplifier: f1, duration: f2, visible: f3 };
                assert(
                    data(values@) =~= Seq::empty()
                        .push(opt_bool_datum(t.ambient))
                        .push(opt_ranged_int_datum(t.amplifier))
                        .push(opt_ranged_int_datum(t.duration))
                        .push(opt_bool_datum(t.visible))
                );
                Some(t)
            },
            _ => None,
        }
    }

    /// The reference to the definition of this type.
    pub open spec fn shape() -> Shape {
        Shape::Ref(EFFECT as nat)
    }

    /// The node that refers to the definition of this type.
    pub fn node() -> (n: Node)
        ensures
            n.shape() == Self::shape(),
    {
        Node::Ref(EFFECT)
    }

    /// Every value of this type is a value of its shape.
    pub proof fn lemma_conforms(&self, level: nat)
        ensures
            conforms(catalog(), level, Self::def_shape(), self.datum()),
            conforms(catalog(), catalog().len(), Self::shape(), self.datum()),
    {
        lemma_catalog();
        self.lemma_conforms_def(EFFECT as nat);
        lemma_ref(catalog(), EFFECT as nat, self.datum());
        self.lemma_conforms_def(level);
    }

    /// Every value of the shape of this type is the model of one of its values.
    pub proof fn lemma_fits(d: Datum, level: nat)
        requires
            conforms(catalog(), level, Self::def_shape(), d) || conforms(
                catalog(),
                level,
                Self::shape(),
                d,
            ),
        ensures
            Self::valid(d),
    {
        lemma_catalog();
        if conforms(catalog(), level, Self::def_shape(), d) {
            Self::lemma_fits_def(d, level);
        } else {
            lemma_unref(catalog(), level, EFFECT as nat, d);
            Self::lemma_fits_def(d, EFFECT as nat);
        }
    }

    proof fn lemma_conforms_def(&self, level: nat)
        ensures
            conforms(catalog(), level, Self::def_shape(), self.datum()),
    {
        reveal(Effect::def_shape);
        let fs0 = Seq::<FieldShape>::empty();
        let vs0 = Seq::<Datum>::empty();
        lemma_no_fields(catalog(), level);
        opt_bool_conforms(self.ambient, catalog().len());
        lemma_more_fields(
            catalog(),
            level,
            fs0,
            vs0,
            defaulted("ambient"@, opt_bool_shape(), Datum::Absent, Omit::IfAbsent),
            opt_bool_datum(self.ambient),
        );
        let fs1 = fs0.push(defaulted("ambient"@, opt_bool_shape(), Datum::Absent, Omit::IfAbsent));
        let vs1 = vs0.push(opt_bool_datum(self.ambient));
        opt_ranged_int_conforms(self.amplifier, catalog().len());
        lemma_more_fields(
            catalog(),
            level,
            fs1,
            vs1,
            defaulted("amplifier"@, opt_ranged_int_shape(), Datum::Absent, Omit::IfAbsent),
            opt_ranged_int_datum(self.amplifier),
        );
        let fs2 = fs1.push(
            defaulted("amplifier"@, opt_ranged_int_shape(), Datum::Absent, Omit::IfAbsent)
        );
        let vs2 = vs1.push(opt_ranged_int_datum(self.amplifier));
        opt_ranged_int_conforms(self.duration, catalog().len());
        lemma_more_fields(
            catalog(),
            level,
            fs2,
            vs2,
            defaulted("duration"@, opt_ranged_int_shape(), Datum::Absent, Omit::IfAbsent),
            opt_ranged_int_datum(self.duration),
        );
        let fs3 = fs2.push(
            defaulted("duration"@, opt_ranged_int_shape(), Datum::Absent, Omit::IfAbsent)
        );
        let vs3 = vs2.push(opt_ranged_int_datum(self.duration));
        opt_bool_conforms(self.visible, catalog().len());
        lemma_more_fields(
            catalog(),
            level,
            fs3,
            vs3,
            defaulted("visible"@, opt_bool_shape(), Datum::Absent, Omit::IfAbsent),
            opt_bool_datum(self.visible),
        );
        let fs4 = fs3.push(defaulted("visible"@, opt_bool_shape(), Datum::Absent, Omit::IfAbsent));
        let vs4 = vs3.push(opt_bool_datum(self.visible));
        lemma_record(catalog(), level, fs4, vs4);
    }

    proof fn lemma_fits_def(d: Datum, level: nat)
        requires
            conforms(catalog(), level, Self::def_shape(), d),
        ensures
            Self::valid(d),
    {
        reveal(Effect::def_shape);
        let fields = Self::fields();
        let vs = d->Record_0;
        lemma_field(catalog(), level, fields, d, 0);
        assert(fields[0] == defaulted("ambient"@, opt_bool_shape(), Datum::Absent, Omit::IfAbsent));
        opt_bool_fits(vs[0], catalog().len());
        lemma_field(catalog(), level, fields, d, 1);
        assert(
            fields[1] == defaulted(
                "amplifier"@,
                opt_ranged_int_shape(),
                Datum::Absent,
                Omit::IfAbsent,
            )
        );
        opt_ranged_int_fits(vs[1], catalog().len());
        lemma_field(catalog(), level, fields, d, 2);
        assert(
            fields[2] == defaulted(
                "duration"@,
                opt_ranged_int_shape(),
                Datum::Absent,
                Omit::IfAbsent,
            )
        );
        opt_ranged_int_fits(vs[2], catalog().len());
        lemma_field(catalog(), level, fields, d, 3);
        assert(fields[3] == defaulted("visible"@, opt_bool_shape(), Datum::Absent, Omit::IfAbsent));
        opt_bool_fits(vs[3], catalog().len());
    }

    /// Every value of this type can be written and read back as itself.
    pub proof fn lemma_legal(&self, level: nat)
        ensures
            legal(catalog(), level, Self::def_shape(), self.datum()),
            legal(catalog(), catalog().len(), Self::shape(), self.datum()),
            encode_spec(catalog(), level, Self::def_shape(), self.datum()) is Object,
            encode_spec(catalog(), catalog().len(), Self::shape(), self.datum()) is Object,
    {
        lemma_catalog();
        self.lemma_legal_def(EFFECT as nat);
        lemma_written_by_reference(catalog(), catalog().len(), EFFECT as nat, self.datum());
        self.lemma_legal_def(level);
    }

    proof fn lemma_legal_def(&self, level: nat)
        ensures
            legal(catalog(), level, Self::def_shape(), self.datum()),
            encode_spec(catalog(), level, Self::def_shape(), self.datum()) is Object,
    {
        reveal(Effect::def_shape);
        let fs0 = Seq::<FieldShape>::empty();
        let vs0 = Seq::<Datum>::empty();
        lemma_no_fields_legal(catalog(), level);
        opt_bool_legal(self.ambient, catalog().len());
        lemma_more_fields_legal(
            catalog(),
            level,
            fs0,
            vs0,
            defaulted("ambient"@, opt_bool_shape(), Datum::Absent, Omit::IfAbsent),
            opt_bool_datum(self.ambient),
        );
        let fs1 = fs0.push(defaulted("ambient"@, opt_bool_shape(), Datum::Absent, Omit::IfAbsent));
        let vs1 = vs0.push(opt_bool_datum(self.ambient));
        opt_ranged_int_legal(self.amplifier, catalog().len());
        lemma_more_fields_legal(
            catalog(),
            level,
            fs1,
            vs1,
            defaulted("amplifier"@, opt_ranged_int_shape(), Datum::Absent, Omit::IfAbsent),
            opt_ranged_int_datum(self.amplifier),
        );
        let fs2 = fs1.push(
            defaulted("amplifier"@, opt_ranged_int_shape(), Datum::Absent, Omit::IfAbsent)
        );
        let vs2 = vs1.push(opt_ranged_int_datum(self.amplifier));
        opt_ranged_int_legal(self.duration, catalog().len());
        lemma_more_fields_legal(
            catalog(),
            level,
            fs2,
            vs2,
            defaulted("duration"@, opt_ranged_int_shape(), Datum::Absent, Omit::IfAbsent),
            opt_ranged_int_datum(self.duration),
        );
        let fs3 = fs2.push(
            defaulted("duration"@, opt_ranged_int_shape(), Datum::Absent, Omit::IfAbsent)
        );
        let vs3 = vs2.push(opt_ranged_int_datum(self.duration));
        opt_bool_legal(self.visible, catalog().len());
        lemma_more_fields_legal(
            catalog(),
            level,
            fs3,
            vs3,
            defaulted("visible"@, opt_bool_shape(), Datum::Absent, Omit::IfAbsent),
            opt_bool_datum(self.visible),
        );
        let fs4 = fs3.push(defaulted("visible"@, opt_bool_shape(), Datum::Absent, Omit::IfAbsent));
        let vs4 = vs3.push(opt_bool_datum(self.visible));
        lemma_record_legal(catalog(), level, fs4, vs4);
    }
}

impl Effect {
    /// The model of the default value of this type.
    pub open spec fn default_datum() -> Datum {
        Datum::Record(
            Seq::empty()
                .push(Datum::Absent)
                .push(Datum::Absent)
                .push(Datum::Absent)
                .push(Datum::Absent),
        )
    }
}

impl Default for Effect {
    fn default() -> (r: Effect)
        ensures
            r.datum() == Effect::default_datum(),
    {
        let r = Effect { ambient: None, amplifier: None, duration: None, visible: None };
        r
    }
}

/// Conditions on what an entity wears and holds.
#[derive(Debug, PartialEq, Eq)]
pub struct Equipment {
    pub mainhand: Option<Box<Item>>,
    pub offhand: Option<Box<Item>>,
    pub head: Option<Box<Item>>,
    pub chest: Option<Box<Item>>,
    pub legs: Option<Box<Item>>,
    pub feet: Option<Box<Item>>,
}

impl Equipment {
    /// The model of this value.
    pub open spec fn datum(&self) -> Datum {
        Datum::Record(
            Seq::empty()
                .push(opt_item_datum(self.mainhand))
                .push(opt_item_datum(self.offhand))
                .push(opt_item_datum(self.head))
                .push(opt_item_datum(self.chest))
                .push(opt_item_datum(self.legs))
                .push(opt_item_datum(self.feet)),
        )
    }

    /// Whether `d` is the model of a value of this type.
    pub open spec fn valid(d: Datum) -> bool {
        &&& d matches Datum::Record(vs)
        &&& vs.len() == 6
        &&& opt_item_valid(vs[0])
        &&& opt_item_valid(vs[1])
        &&& opt_item_valid(vs[2])
        &&& opt_item_valid(vs[3])
        &&& opt_item_valid(vs[4])
        &&& opt_item_valid(vs[5])
    }

    /// The fields of this type, in declaration order.
    pub open spec fn fields() -> Seq<FieldShape> {
        Seq::empty()
            .push(defaulted("mainhand"@, opt_item_shape(), Datum::Absent, Omit::IfAbsent))
            .push(defaulted("offhand"@, opt_item_shape(), Datum::Absent, Omit::IfAbsent))
            .push(defaulted("head"@, opt_item_shape(), Datum::Absent, Omit::IfAbsent))
            .push(defaulted("chest"@, opt_item_shape(), Datum::Absent, Omit::IfAbsent))
            .push(defaulted("legs"@, opt_item_shape(), Datum::Absent, Omit::IfAbsent))
            .push(defaulted("feet"@, opt_item_shape(), Datum::Absent, Omit::IfAbsent))
    }

    /// The shape of the documents of this type.
    #[verifier::opaque]
    pub open spec fn def_shape() -> Shape {
        Shape::Record(Self::fields())
    }

    /// The node of the documents of this type.
    pub fn def_node() -> (n: Node)
        ensures
            n.shape() == Self::def_shape(),
    {
        reveal(Equipment::def_shape);
        let mut fields = no_fields();
        push_field(
            &mut fields,
            field_defaulted("mainhand", opt_item_node(), Instance::Absent, Omit::IfAbsent),
        );
        push_field(
            &mut fields,
            field_defaulted("offhand", opt_item_node(), Instance::Absent, Omit::IfAbsent),
        );
        push_field(
            &mut fields,
            field_defaulted("head", opt_item_node(), Instance::Absent, Omit::IfAbsent),
        );
        push_field(
            &mut fields,
            field_defaulted("chest", opt_item_node(), Instance::Absent, Omit::IfAbsent),
        );
        push_field(
            &mut fields,
            field_defaulted("legs", opt_item_node(), Instance::Absent, Omit::IfAbsent),
        );
        push_field(
            &mut fields,
            field_defaulted("feet", opt_item_node(), Instance::Absent, Omit::IfAbsent),
        );
        Node::Record(fields)
    }

    /// This value in generic form.
    pub fn to_instance(&self) -> (x: Instance)
        ensures
            x@ == self.datum(),
    {
        let mut values = no_values();
        push_value(&mut values, opt_item_to(&self.mainhand));
        push_value(&mut values, opt_item_to(&self.offhand));
        push_value(&mut values, opt_item_to(&self.head));
        push_value(&mut values, opt_item_to(&self.chest));
        push_value(&mut values, opt_item_to(&self.legs));
        push_value(&mut values, opt_item_to(&self.feet));
        Instance::Record(values)
    }

    /// The value that an instance stands for, if it stands for one.
    pub fn from_instance(x: &Instance) -> (r: Option<Equipment>)
        ensures
            match r {
                Some(t) => t.datum() == x@,
                None => !Self::valid(x@),
            },
    {
        match x {
            Instance::Record(values) => {
                assert(x@->Record_0 == data(values@));
                if values.len() != 6 {
                    return None;
                }
                let f0 = match opt_item_from(&values[0]) {
                    Some(v) => v,
                    None => {
                        assert(data(values@)[0] == values[0]@);
                        return None;
                    },
                };
                let f1 = match opt_item_from(&values[1]) {
                    Some(v) => v,
                    None => {
                        assert(data(values@)[1] == values[1]@);
                        return None;
                    },
                };
                let f2 = match opt_item_from(&values[2]) {
                    Some(v) => v,
                    None => {
                        assert(data(values@)[2] == values[2]@);
                        return None;
                    },
                };
                let f3 = match opt_item_from(&values[3]) {
                    Some(v) => v,
                    None => {
                        assert(data(values@)[3] == values[3]@);
                        return None;
                    },
                };
                let f4 = match opt_item_from(&values[4]) {
                    Some(v) => v,
                    None => {
                        assert(data(values@)[4] == values[4]@);
                        return None;
                    },
                };
                let f5 = match opt_item_from(&values[5]) {
                    Some(v) => v,
                    None => {
                        assert(data(values@)[5] == values[5]@);
                        return None;
                    },
                };
                let t = Equipment { mainhand: f0, offhand: f1, head: f2, chest: f3, legs: f4, feet: f5 };
                assert(
                    data(values@) =~= Seq::empty()
                        .push(opt_item_datum(t.mainhand))
                        .push(opt_item_datum(t.offhand))
                        .push(opt_item_datum(t.head))
                        .push(opt_item_datum(t.chest))
                        .push(opt_item_datum(t.legs))
                        .push(opt_item_datum(t.feet))
                );
                Some(t)
            },
            _ => None,
        }
    }

    /// The reference to the definition of this type.
    pub open spec fn shape() -> Shape {
        Shape::Ref(EQUIPMENT as nat)
    }

    /// The node that refers to the definition of this type.
    pub fn node() -> (n: Node)
        ensures
            n.shape() == Self::shape(),
    {
        Node::Ref(EQUIPMENT)
    }

    /// Every value of this type is a value of its shape.
    pub proof fn lemma_conforms(&self, level: nat)
        ensures
            conforms(catalog(), level, Self::def_shape(), self.datum()),
            conforms(catalog(), catalog().len(), Self::shape(), self.datum()),
    {
        lemma_catalog();
        self.lemma_conforms_def(EQUIPMENT as nat);
        lemma_ref(catalog(), EQUIPMENT as nat, self.datum());
        self.lemma_conforms_def(level);
    }

    /// Every value of the shape of this type is the model of one of its values.
    pub proof fn lemma_fits(d: Datum, level: nat)
        requires
            conforms(catalog(), level, Self::def_shape(), d) || conforms(
                catalog(),
                level,
                Self::shape(),
                d,
            ),
        ensures
            Self::valid(d),
    {
        lemma_catalog();
        if conforms(catalog(), level, Self::def_shape(), d) {
            Self::lemma_fits_def(d, level);
        } else {
            lemma_unref(catalog(), level, EQUIPMENT as nat, d);
            Self::lemma_fits_def(d, EQUIPMENT as nat);
        }
    }

    proof fn lemma_conforms_def(&self, level: nat)
        ensures
            conforms(catalog(), level, Self::def_shape(), self.datum()),
    {
        reveal(Equipment::def_shape);
        let fs0 = Seq::<FieldShape>::empty();
        let vs0 = Seq::<Datum>::empty();
        lemma_no_fields(catalog(), level);
        opt_item_conforms(self.mainhand, catalog().len());
        lemma_more_fields(
            catalog(),
            level,
            fs0,
            vs0,
            defaulted("mainhand"@, opt_item_shape(), Datum::Absent, Omit::IfAbsent),
            opt_item_datum(self.mainhand),
        );
        let fs1 = fs0.push(defaulted("mainhand"@, opt_item_shape(), Datum::Absent, Omit::IfAbsent));
        let vs1 = vs0.push(opt_item_datum(self.mainhand));
        opt_item_conforms(self.offhand, catalog().len());
        lemma_more_fields(
            catalog(),
            level,
            fs1,
            vs1,
            defaulted("offhand"@, opt_item_shape(), Datum::Absent, Omit::IfAbsent),
            opt_item_datum(self.offhand),
        );
        let fs2 = fs1.push(defaulted("offhand"@, opt_item_shape(), Datum::Absent, Omit::IfAbsent));
        let vs2 = vs1.push(opt_item_datum(self.offhand));
        opt_item_conforms(self.head, catalog().len());
        lemma_more_fields(
            catalog(),
            level,
            fs2,
            vs2,
            defaulted("head"@, opt_item_shape(), Datum::Absent, Omit::IfAbsent),
            opt_item_datum(self.head),
        );
        let fs3 = fs2.push(defaulted("head"@, opt_item_shape(), Datum::Absent, Omit::IfAbsent));
        let vs3 = vs2.push(opt_item_datum(self.head));
        opt_item_conforms(self.chest, catalog().len());
        lemma_more_fields(
            catalog(),
            level,
            fs3,
            vs3,
            defaulted("chest"@, opt_item_shape(), Datum::Absent, Omit::IfAbsent),
            opt_item_datum(self.chest),
        );
        let fs4 = fs3.push(defaulted("chest"@, opt_item_shape(), Datum::Absent, Omit::IfAbsent));
        let vs4 = vs3.push(opt_item_datum(self.chest));
        opt_item_conforms(self.legs, catalog().len());
        lemma_more_fields(
            catalog(),
            level,
            fs4,
            vs4,
            defaulted("legs"@, opt_item_shape(), Datum::Absent, Omit::IfAbsent),
            opt_item_datum(self.legs),
        );
        let fs5 = fs4.push(defaulted("legs"@, opt_item_shape(), Datum::Absent, Omit::IfAbsent));
        let vs5 = vs4.push(opt_item_datum(self.legs));
        opt_item_conforms(self.feet, catalog().len());
        lemma_more_fields(
            catalog(),
            level,
            fs5,
            vs5,
            defaulted("feet"@, opt_item_shape(), Datum::Absent, Omit::IfAbsent),
            opt_item_datum(self.feet),
        );
        let fs6 = fs5.push(defaulted("feet"@, opt_item_shape(), Datum::Absent, Omit::IfAbsent));
        let vs6 = vs5.push(opt_item_datum(self.feet));
        lemma_record(catalog(), level, fs6, vs6);
    }

    proof fn lemma_fits_def(d: Datum, level: nat)
        requires
            conforms(catalog(), level, Self::def_shape(), d),
        ensures
            Self::valid(d),
    {
        reveal(Equipment::def_shape);
        let fields = Self::fields();
        let vs = d->Record_0;
        lemma_field(catalog(), level, fields, d, 0);
        assert(
            fields[0] == defaulted("mainhand"@, opt_item_shape(), Datum::Absent, Omit::IfAbsent)
        );
        opt_item_fits(vs[0], catalog().len());
        lemma_field(catalog(), level, fields, d, 1);
        assert(fields[1] == defaulted("offhand"@, opt_item_shape(), Datum::Absent, Omit::IfAbsent));
        opt_item_fits(vs[1], catalog().len());
        lemma_field(catalog(), level, fields, d, 2);
        assert(fields[2] == defaulted("head"@, opt_item_shape(), Datum::Absent, Omit::IfAbsent));
        opt_item_fits(vs[2], catalog().len());
        lemma_field(catalog(), level, fields, d, 3);
        assert(fields[3] == defaulted("chest"@, opt_item_shape(), Datum::Absent, Omit::IfAbsent));
        opt_item_fits(vs[3], catalog().len());
        lemma_field(catalog(), level, fields, d, 4);
        assert(fields[4] == defaulted("legs"@, opt_item_shape(), Datum::Absent, Omit::IfAbsent));
        opt_item_fits(vs[4], catalog().len());
        lemma_field(catalog(), level, fields, d, 5);
        assert(fields[5] == defaulted("feet"@, opt_item_shape(), Datum::Absent, Omit::IfAbsent));
        opt_item_fits(vs[5], catalog().len());
    }

    /// Every value of this type can be written and read back as itself.
    pub proof fn lemma_legal(&self, level: nat)
        ensures
            legal(catalog(), level, Self::def_shape(), self.datum()),
            legal(catalog(), catalog().len(), Self::shape(), self.datum()),
            encode_spec(catalog(), level, Self::def_shape(), self.datum()) is Object,
            encode_spec(catalog(), catalog().len(), Self::shape(), self.datum()) is Object,
    {
        lemma_catalog();
        self.lemma_legal_def(EQUIPMENT as nat);
        lemma_written_by_reference(catalog(), catalog().len(), EQUIPMENT as nat, self.datum());
        self.lemma_legal_def(level);
    }

    proof fn lemma_legal_def(&self, level: nat)
        ensures
            legal(catalog(), level, Self::def_shape(), self.datum()),
            encode_spec(catalog(), level, Self::def_shape(), self.datum()) is Object,
    {
        reveal(Equipment::def_shape);
        let fs0 = Seq::<FieldShape>::empty();
        let vs0 = Seq::<Datum>::empty();
        lemma_no_fields_legal(catalog(), level);
        opt_item_legal(self.mainhand, catalog().len());
        lemma_more_fields_legal(
            catalog(),
            level,
            fs0,
            vs0,
            defaulted("mainhand"@, opt_item_shape(), Datum::Absent, Omit::IfAbsent),
            opt_item_datum(self.mainhand),
        );
        let fs1 = fs0.push(defaulted("mainhand"@, opt_item_shape(), Datum::Absent, Omit::IfAbsent));
        let vs1 = vs0.push(opt_item_datum(self.mainhand));
        opt_item_legal(self.offhand, catalog().len());
        lemma_more_fields_legal(
            catalog(),
            level,
            fs1,
            vs1,
            defaulted("offhand"@, opt_item_shape(), Datum::Absent, Omit::IfAbsent),
            opt_item_datum(self.offhand),
        );
        let fs2 = fs1.push(defaulted("offhand"@, opt_item_shape(), Datum::Absent, Omit::IfAbsent));
        let vs2 = vs1.push(opt_item_datum(self.offhand));
        opt_item_legal(self.head, catalog().len());
        lemma_more_fields_legal(
            catalog(),
            level,
            fs2,
            vs2,
            defaulted("head"@, opt_item_shape(), Datum::Absent, Omit::IfAbsent),
            opt_item_datum(self.head),
        );
        let fs3 = fs2.push(defaulted("head"@, opt_item_shape(), Datum::Absent, Omit::IfAbsent));
        let vs3 = vs2.push(opt_item_datum(self.head));
        opt_item_legal(self.chest, catalog().len());
        lemma_more_fields_legal(
            catalog(),
            level,
            fs3,
            vs3,
            defaulted("chest"@, opt_item_shape(), Datum::Absent, Omit::IfAbsent),
            opt_item_datum(self.chest),
        );
        let fs4 = fs3.push(defaulted("chest"@, opt_item_shape(), Datum::Absent, Omit::IfAbsent));
        let vs4 = vs3.push(opt_item_datum(self.chest));
        opt_item_legal(self.legs, catalog().len());
        lemma_more_fields_legal(
            catalog(),
            level,
            fs4,
            vs4,
            defaulted("legs"@, opt_item_shape(), Datum::Absent, Omit::IfAbsent),
            opt_item_datum(self.legs),
        );
        let fs5 = fs4.push(defaulted("legs"@, opt_item_shape(), Datum::Absent, Omit::IfAbsent));
        let vs5 = vs4.push(opt_item_datum(self.legs));
        opt_item_legal(self.feet, catalog().len());
        lemma_more_fields_legal(
            catalog(),
            level,
            fs5,
            vs5,
            defaulted("feet"@, opt_item_shape(), Datum::Absent, Omit::IfAbsent),
            opt_item_datum(self.feet),
        );
        let fs6 = fs5.push(defaulted("feet"@, opt_item_shape(), Datum::Absent, Omit::IfAbsent));
        let vs6 = vs5.push(opt_item_datum(self.feet));
        lemma_record_legal(catalog(), level, fs6, vs6);
    }
}

impl Equipment {
    /// The model of the default value of this type.
    pub open spec fn default_datum() -> Datum {
        Datum::Record(
            Seq::empty()
                .push(Datum::Absent)
                .push(Datum::Absent)
                .push(Datum::Absent)
                .push(Datum::Absent)
                .push(Datum::Absent)
                .push(Datum::Absent),
        )
    }
}

impl Default for Equipment {
    fn default() -> (r: Equipment)
        ensures
            r.datum() == Equipment::default_datum(),
    {
        let r = Equipment { mainhand: None, offhand: None, head: None, chest: None, legs: None, feet: None };
        r
    }
}

/// Conditions on the state flags of an entity.
#[derive(Debug, PartialEq, Eq)]
pub struct EntityFlags {
    pub is_on_fire: Option<bool>,
    pub is_sneaking: Option<bool>,
    pub is_sprinting: Option<bool>,
    pub is_swimming: Option<bool>,
    pub is_baby: Option<bool>,
}

impl EntityFlags {
    /// The model of this value.
    pub open spec fn datum(&self) -> Datum {
        Datum::Record(
            Seq::empty()
                .push(opt_bool_datum(self.is_on_fire))
                .push(opt_bool_datum(self.is_sneaking))
                .push(opt_bool_datum(self.is_sprinting))
                .push(opt_bool_datum(self.is_swimming))
                .push(opt_bool_datum(self.is_baby)),
        )
    }

    /// Whether `d` is the model of a value of this type.
    pub open spec fn valid(d: Datum) -> bool {
        &&& d matches Datum::Record(vs)
        &&& vs.len() == 5
        &&& opt_bool_valid(vs[0])
        &&& opt_bool_valid(vs[1])
        &&& opt_bool_valid(vs[2])
        &&& opt_bool_valid(vs[3])
        &&& opt_bool_valid(vs[4])
    }

    /// The fields of this type, in declaration order.
    pub open spec fn fields() -> Seq<FieldShape> {
        Seq::empty()
            .push(defaulted("is_on_fire"@, opt_bool_shape(), Datum::Absent, Omit::IfAbsent))
            .push(defaulted("is_sneaking"@, opt_bool_shape(), Datum::Absent, Omit::IfAbsent))
            .push(defaulted("is_sprinting"@, opt_bool_shape(), Datum::Absent, Omit::IfAbsent))
            .push(defaulted("is_swimming"@, opt_bool_shape(), Datum::Absent, Omit::IfAbsent))
            .push(defaulted("is_baby"@, opt_bool_shape(), Datum::Absent, Omit::IfAbsent))
    }

    /// The shape of the documents of this type.
    #[verifier::opaque]
    pub open spec fn def_shape() -> Shape {
        Shape::Record(Self::fields())
    }

    /// The node of the documents of this type.
    pub fn def_node() -> (n: Node)
        ensures
            n.shape() == Self::def_shape(),
    {
        reveal(EntityFlags::def_shape);
        let mut fields = no_fields();
        push_field(
            &mut fields,
            field_defaulted("is_on_fire", opt_bool_node(), Instance::Absent, Omit::IfAbsent),
        );
        push_field(
            &mut fields,
            field_defaulted("is_sneaking", opt_bool_node(), Instance::Absent, Omit::IfAbsent),
        );
        push_field(
            &mut fields,
            field_defaulted("is_sprinting", opt_bool_node(), Instance::Absent, Omit::IfAbsent),
        );
        push_field(
            &mut fields,
            field_defaulted("is_swimming", opt_bool_node(), Instance::Absent, Omit::IfAbsent),
        );
        push_field(
            &mut fields,
            field_defaulted("is_baby", opt_bool_node(), Instance::Absent, Omit::IfAbsent),
        );
        Node::Record(fields)
    }

    /// This value in generic form.
    pub fn to_instance(&self) -> (x: Instance)
        ensures
            x@ == self.datum(),
    {
        let mut values = no_values();
        push_value(&mut values, opt_bool_to(&self.is_on_fire));
        push_value(&mut values, opt_bool_to(&self.is_sneaking));
        push_value(&mut values, opt_bool_to(&self.is_sprinting));
        push_value(&mut values, opt_bool_to(&self.is_swimming));
        push_value(&mut values, opt_bool_to(&self.is_baby));
        Instance::Record(values)
    }

    /// The value that an instance stands for, if it stands for one.
    pub fn from_instance(x: &Instance) -> (r: Option<EntityFlags>)
        ensures
            match r {
                Some(t) => t.datum() == x@,
                None => !Self::valid(x@),
            },
    {
        match x {
            Instance::Record(values) => {
                assert(x@->Record_0 == data(values@));
                if values.len() != 5 {
                    return None;
                }
                let f0 = match opt_bool_from(&values[0]) {
                    Some(v) => v,
                    None => {
                        assert(data(values@)[0] == values[0]@);
                        return None;
                    },
                };
                let f1 = match opt_bool_from(&values[1]) {
                    Some(v) => v,
                    None => {
                        assert(data(values@)[1] == values[1]@);
                        return None;
                    },
                };
                let f2 = match opt_bool_from(&values[2]) {
                    Some(v) => v,
                    None => {
                        assert(data(values@)[2] == values[2]@);
                        return None;
                    },
                };
                let f3 = match opt_bool_from(&values[3]) {
                    Some(v) => v,
                    None => {
                        assert(data(values@)[3] == values[3]@);
                        return None;
                    },
                };
                let f4 = match opt_bool_from(&values[4]) {
                    Some(v) => v,
                    None => {
                        assert(data(values@)[4] == values[4]@);
                        return None;
                    },
                };
                let t = EntityFlags { is_on_fire: f0, is_sneaking: f1, is_sprinting: f2, is_swimming: f3, is_baby: f4 };
                assert(
                    data(values@) =~= Seq::empty()
                        .push(opt_bool_datum(t.is_on_fire))
                        .push(opt_bool_datum(t.is_sneaking))
                        .push(opt_bool_datum(t.is_sprinting))
                        .push(opt_bool_datum(t.is_swimming))
                        .push(opt_bool_datum(t.is_baby))
                );
                Some(t)
            },
            _ => None,
        }
    }

    /// The reference to the definition of this type.
    pub open spec fn shape() -> Shape {
        Shape::Ref(ENTITY_FLAGS as nat)
    }

    /// The node that refers to the definition of this type.
    pub fn node() -> (n: Node)
        ensures
            n.shape() == Self::shape(),
    {
        Node::Ref(ENTITY_FLAGS)
    }

    /// Every value of this type is a value of its shape.
    pub proof fn lemma_conforms(&self, level: nat)
        ensures
            conforms(catalog(), level, Self::def_shape(), self.datum()),
            conforms(catalog(), catalog().len(), Self::shape(), self.datum()),
    {
        lemma_catalog();
        self.lemma_conforms_def(ENTITY_FLAGS as nat);
        lemma_ref(catalog(), ENTITY_FLAGS as nat, self.datum());
        self.lemma_conforms_def(level);
    }

    /// Every value of the shape of this type is the model of one of its values.
    pub proof fn lemma_fits(d: Datum, level: nat)
        requires
            conforms(catalog(), level, Self::def_shape(), d) || conforms(
                catalog(),
                level,
                Self::shape(),
                d,
            ),
        ensures
            Self::valid(d),
    {
        lemma_catalog();
        if conforms(catalog(), level, Self::def_shape(), d) {
            Self::lemma_fits_def(d, level);
        } else {
            lemma_unref(catalog(), level, ENTITY_FLAGS as nat, d);
            Self::lemma_fits_def(d, ENTITY_FLAGS as nat);
        }
    }

    proof fn lemma_conforms_def(&self, level: nat)
        ensures
            conforms(catalog(), level, Self::def_shape(), self.datum()),
    {
        reveal(EntityFlags::def_shape);
        let fs0 = Seq::<FieldShape>::empty();
        let vs0 = Seq::<Datum>::empty();
        lemma_no_fields(catalog(), level);
        opt_bool_conforms(self.is_on_fire, catalog().len());
        lemma_more_fields(
            catalog(),
            level,
            fs0,
            vs0,
            defaulted("is_on_fire"@, opt_bool_shape(), Datum::Absent, Omit::IfAbsent),
            opt_bool_datum(self.is_on_fire),
        );
        let fs1 = fs0.push(
            defaulted("is_on_fire"@, opt_bool_shape(), Datum::Absent, Omit::IfAbsent)
        );
        let vs1 = vs0.push(opt_bool_datum(self.is_on_fire));
        opt_bool_conforms(self.is_sneaking, catalog().len());
        lemma_more_fields(
            catalog(),
            level,
            fs1,
            vs1,
            defaulted("is_sneaking"@, opt_bool_shape(), Datum::Absent, Omit::IfAbsent),
            opt_bool_datum(self.is_sneaking),
        );
        let fs2 = fs1.push(
            defaulted("is_sneaking"@, opt_bool_shape(), Datum::Absent, Omit::IfAbsent)
        );
        let vs2 = vs1.push(opt_bool_datum(self.is_sneaking));
        opt_bool_conforms(self.is_sprinting, catalog().len());
        lemma_more_fields(
            catalog(),
            level,
            fs2,
            vs2,
            defaulted("is_sprinting"@, opt_bool_shape(), Datum::Absent, Omit::IfAbsent),
            opt_bool_datum(self.is_sprinting),
        );
        let fs3 = fs2.push(
            defaulted("is_sprinting"@, opt_bool_shape(), Datum::Absent, Omit::IfAbsent)
        );
        let vs3 = vs2.push(opt_bool_datum(self.is_sprinting));
        opt_bool_conforms(self.is_swimming, catalog().len());
        lemma_more_fields(
            catalog(),
            level,
            fs3,
            vs3,
            defaulted("is_swimming"@, opt_bool_shape(), Datum::Absent, Omit::IfAbsent),
            opt_bool_datum(self.is_swimming),
        );
        let fs4 = fs3.push(
            defaulted("is_swimming"@, opt_bool_shape(), Datum::Absent, Omit::IfAbsent)
        );
        let vs4 = vs3.push(opt_bool_datum(self.is_swimming));
        opt_bool_conforms(self.is_baby, catalog().len());
        lemma_more_fields(
            catalog(),
            level,
            fs4,
            vs4,
            defaulted("is_baby"@, opt_bool_shape(), Datum::Absent, Omit::IfAbsent),
            opt_bool_datum(self.is_baby),
        );
        let fs5 = fs4.push(defaulted("is_baby"@, opt_bool_shape(), Datum::Absent, Omit::IfAbsent));
        let vs5 = vs4.push(opt_bool_datum(self.is_baby));
        lemma_record(catalog(), level, fs5, vs5);
    }

    proof fn lemma_fits_def(d: Datum, level: nat)
        requires
            conforms(catalog(), level, Self::def_shape(), d),
        ensures
            Self::valid(d),
    {
        reveal(EntityFlags::def_shape);
        let fields = Self::fields();
        let vs = d->Record_0;
        lemma_field(catalog(), level, fields, d, 0);
        assert(
            fields[0] == defaulted("is_on_fire"@, opt_bool_shape(), Datum::Absent, Omit::IfAbsent)
        );
        opt_bool_fits(vs[0], catalog().len());
        lemma_field(catalog(), level, fields, d, 1);
        assert(
            fields[1] == defaulted("is_sneaking"@, opt_bool_shape(), Datum::Absent, Omit::IfAbsent)
        );
        opt_bool_fits(vs[1], catalog().len());
        lemma_field(catalog(), level, fields, d, 2);
        assert(
            fields[2] == defaulted("is_sprinting"@, opt_bool_shape(), Datum::Absent, Omit::IfAbsent)
        );
        opt_bool_fits(vs[2], catalog().len());
        lemma_field(catalog(), level, fields, d, 3);
        assert(
            fields[3] == defaulted("is_swimming"@, opt_bool_shape(), Datum::Absent, Omit::IfAbsent)
        );
        opt_bool_fits(vs[3], catalog().len());
        lemma_field(catalog(), level, fields, d, 4);
        assert(fields[4] == defaulted("is_baby"@, opt_bool_shape(), Datum::Absent, Omit::IfAbsent));
        opt_bool_fits(vs[4], catalog().len());
    }

    /// Every value of this type can be written and read back as itself.
    pub proof fn lemma_legal(&self, level: nat)
        ensures
            legal(catalog(), level, Self::def_shape(), self.datum()),
            legal(catalog(), catalog().len(), Self::shape(), self.datum()),
            encode_spec(catalog(), level, Self::def_shape(), self.datum()) is Object,
            encode_spec(catalog(), catalog().len(), Self::shape(), self.datum()) is Object,
    {
        lemma_catalog();
        self.lemma_legal_def(ENTITY_FLAGS as nat);
        lemma_written_by_reference(catalog(), catalog().len(), ENTITY_FLAGS as nat, self.datum());
        self.lemma_legal_def(level);
    }

    proof fn lemma_legal_def(&self, level: nat)
        ensures
            legal(catalog(), level, Self::def_shape(), self.datum()),
            encode_spec(catalog(), level, Self::def_shape(), self.datum()) is Object,
    {
        reveal(EntityFlags::def_shape);
        let fs0 = Seq::<FieldShape>::empty();
        let vs0 = Seq::<Datum>::empty();
        lemma_no_fields_legal(catalog(), level);
        opt_bool_legal(self.is_on_fire, catalog().len());
        lemma_more_fields_legal(
            catalog(),
            level,
            fs0,
            vs0,
            defaulted("is_on_fire"@, opt_bool_shape(), Datum::Absent, Omit::IfAbsent),
            opt_bool_datum(self.is_on_fire),
        );
        let fs1 = fs0.push(
            defaulted("is_on_fire"@, opt_bool_shape(), Datum::Absent, Omit::IfAbsent)
        );
        let vs1 = vs0.push(opt_bool_datum(self.is_on_fire));
        opt_bool_legal(self.is_sneaking, catalog().len());
        lemma_more_fields_legal(
            catalog(),
            level,
            fs1,
            vs1,
            defaulted("is_sneaking"@, opt_bool_shape(), Datum::Absent, Omit::IfAbsent),
            opt_bool_datum(self.is_sneaking),
        );
        let fs2 = fs1.push(
            defaulted("is_sneaking"@, opt_bool_shape(), Datum::Absent, Omit::IfAbsent)
        );
        let vs2 = vs1.push(opt_bool_datum(self.is_sneaking));
        opt_bool_legal(self.is_sprinting, catalog().len());
        lemma_more_fields_legal(
            catalog(),
            level,
            fs2,
            vs2,
            defaulted("is_sprinting"@, opt_bool_shape(), Datum::Absent, Omit::IfAbsent),
            opt_bool_datum(self.is_sprinting),
        );
        let fs3 = fs2.push(
            defaulted("is_sprinting"@, opt_bool_shape(), Datum::Absent, Omit::IfAbsent)
        );
        let vs3 = vs2.push(opt_bool_datum(self.is_sprinting));
        opt_bool_legal(self.is_swimming, catalog().len());
        lemma_more_fields_legal(
            catalog(),
            level,
            fs3,
            vs3,
            defaulted("is_swimming"@, opt_bool_shape(), Datum::Absent, Omit::IfAbsent),
            opt_bool_datum(self.is_swimming),
        );
        let fs4 = fs3.push(
            defaulted("is_swimming"@, opt_bool_shape(), Datum::Absent, Omit::IfAbsent)
        );
        let vs4 = vs3.push(opt_bool_datum(self.is_swimming));
        opt_bool_legal(self.is_baby, catalog().len());
        lemma_more_fields_legal(
            catalog(),
            level,
            fs4,
            vs4,
            defaulted("is_baby"@, opt_bool_shape(), Datum::Absent, Omit::IfAbsent),
            opt_bool_datum(self.is_baby),
        );
        let fs5 = fs4.push(defaulted("is_baby"@, opt_bool_shape(), Datum::Absent, Omit::IfAbsent));
        let vs5 = vs4.push(opt_bool_datum(self.is_baby));
        lemma_record_legal(catalog(), level, fs5, vs5);
    }
}

impl EntityFlags {
    /// The model of the default value of this type.
    pub open spec fn default_datum() -> Datum {
        Datum::Record(
            Seq::empty()
                .push(Datum::Absent)
                .push(Datum::Absent)
                .push(Datum::Absent)
                .push(Datum::Absent)
                .push(Datum::Absent),
        )
    }
}

impl Default for EntityFlags {
    fn default() -> (r: EntityFlags)
        ensures
            r.datum() == EntityFlags::default_datum(),
    {
        let r = EntityFlags { is_on_fire: None, is_sneaking: None, is_sprinting: None, is_swimming: None, is_baby: None };
        r
    }
}

/// Whether an advancement is done, as a whole or criterion by criterion.
#[derive(Debug, PartialEq, Eq)]
pub enum AdvancementStatus {
    Advancement(bool),
    Criteria(Vec<(String, bool)>),
}

impl AdvancementStatus {
    /// The model of this value.
    pub open spec fn datum(&self) -> Datum {
        match self {
            AdvancementStatus::Advancement(v0) => Datum::Variant(0, Box::new(Datum::Bool(*v0))),
            AdvancementStatus::Criteria(v0) => Datum::Variant(1, Box::new(bool_map_datum(*v0))),
        }
    }

    /// Whether `d` is the model of a value of this type.
    pub open spec fn valid(d: Datum) -> bool {
        d matches Datum::Variant(i, y) && if i == 0 {
            *y is Bool
        } else if i == 1 {
            bool_map_valid(*y)
        } else {
            false
        }
    }

    /// The shapes of the alternatives, in declaration order.
    pub open spec fn alts() -> Seq<Shape> {
        Seq::empty().push(Shape::Bool).push(bool_map_shape())
    }

    /// The shape of the documents of this type.
    #[verifier::opaque]
    pub open spec fn def_shape() -> Shape {
        Shape::Untagged(Self::alts())
    }

    /// The node of the documents of this type.
    pub fn def_node() -> (n: Node)
        ensures
            n.shape() == Self::def_shape(),
    {
        reveal(AdvancementStatus::def_shape);
        let mut alts = no_nodes();
        let n0 = bool_node();
        push_node(&mut alts, n0);
        let n1 = bool_map_node();
        push_node(&mut alts, n1);
        Node::Untagged(alts)
    }

    /// This value in generic form.
    pub fn to_instance(&self) -> (x: Instance)
        ensures
            x@ == self.datum(),
    {
        match self {
            AdvancementStatus::Advancement(v0) => Instance::Variant(0, Box::new(bool_to(v0))),
            AdvancementStatus::Criteria(v0) => Instance::Variant(1, Box::new(bool_map_to(v0))),
        }
    }

    /// The value that an instance stands for, if it stands for one.
    pub fn from_instance(x: &Instance) -> (r: Option<AdvancementStatus>)
        ensures
            match r {
                Some(t) => t.datum() == x@,
                None => !Self::valid(x@),
            },
    {
        match x {
            Instance::Variant(i, y) => match *i {
                0 => match bool_from(y) {
                    Some(v) => Some(AdvancementStatus::Advancement(v)),
                    None => None,
                },
                1 => match bool_map_from(y) {
                    Some(v) => Some(AdvancementStatus::Criteria(v)),
                    None => None,
                },
                _ => None,
            },
            _ => None,
        }
    }

    /// The reference to the definition of this type.
    pub open spec fn shape() -> Shape {
        Shape::Ref(ADVANCEMENT_STATUS as nat)
    }

    /// The node that refers to the definition of this type.
    pub fn node() -> (n: Node)
        ensures
            n.shape() == Self::shape(),
    {
        Node::Ref(ADVANCEMENT_STATUS)
    }

    /// Every value of this type is a value of its shape.
    pub proof fn lemma_conforms(&self, level: nat)
        ensures
            conforms(catalog(), level, Self::def_shape(), self.datum()),
            conforms(catalog(), catalog().len(), Self::shape(), self.datum()),
    {
        lemma_catalog();
        self.lemma_conforms_def(ADVANCEMENT_STATUS as nat);
        lemma_ref(catalog(), ADVANCEMENT_STATUS as nat, self.datum());
        self.lemma_conforms_def(level);
    }

    /// Every value of the shape of this type is the model of one of its values.
    pub proof fn lemma_fits(d: Datum, level: nat)
        requires
            conforms(catalog(), level, Self::def_shape(), d) || conforms(
                catalog(),
                level,
                Self::shape(),
                d,
            ),
        ensures
            Self::valid(d),
    {
        lemma_catalog();
        if conforms(catalog(), level, Self::def_shape(), d) {
            Self::lemma_fits_def(d, level);
        } else {
            lemma_unref(catalog(), level, ADVANCEMENT_STATUS as nat, d);
            Self::lemma_fits_def(d, ADVANCEMENT_STATUS as nat);
        }
    }

    proof fn lemma_conforms_def(&self, level: nat)
        ensures
            conforms(catalog(), level, Self::def_shape(), self.datum()),
    {
        reveal(AdvancementStatus::def_shape);
        match self {
            AdvancementStatus::Advancement(v0) => {
                assert(Self::alts()[0] == Shape::Bool);
                lemma_plain(catalog(), level, Datum::Bool((*v0)));
            },
            AdvancementStatus::Criteria(v0) => {
                assert(Self::alts()[1] == bool_map_shape());
                bool_map_conforms((*v0), level);
            },
        }
    }

    proof fn lemma_fits_def(d: Datum, level: nat)
        requires
            conforms(catalog(), level, Self::def_shape(), d),
        ensures
            Self::valid(d),
    {
        reveal(AdvancementStatus::def_shape);
        let i = d->Variant_0;
        let y = *d->Variant_1;
        if i == 0 {
            assert(Self::alts()[0] == Shape::Bool);
            assert(conforms(catalog(), level, Shape::Bool, y));
            lemma_plain(catalog(), level, y);
        } else if i == 1 {
            assert(Self::alts()[1] == bool_map_shape());
            assert(conforms(catalog(), level, bool_map_shape(), y));
            bool_map_fits(y, level);
        }
    }

    /// Every value of this type can be written and read back as itself.
    pub proof fn lemma_legal(&self, level: nat)
        ensures
            legal(catalog(), level, Self::def_shape(), self.datum()),
            legal(catalog(), catalog().len(), Self::shape(), self.datum()),
            ({
                        let k = kind_of(
                            encode_spec(catalog(), level, Self::def_shape(), self.datum())
                        );
                        k == Kind::Bool || k == Kind::Object
                    }),
            ({
                        let k = kind_of(
                            encode_spec(catalog(), catalog().len(), Self::shape(), self.datum())
                        );
                        k == Kind::Bool || k == Kind::Object
                    }),
    {
        lemma_catalog();
        self.lemma_legal_def(ADVANCEMENT_STATUS as nat);
        lemma_written_by_reference(
            catalog(),
            catalog().len(),
            ADVANCEMENT_STATUS as nat,
            self.datum(),
        );
        self.lemma_legal_def(level);
    }

    proof fn lemma_legal_def(&self, level: nat)
        ensures
            legal(catalog(), level, Self::def_shape(), self.datum()),
            ({
                        let k = kind_of(
                            encode_spec(catalog(), level, Self::def_shape(), self.datum())
                        );
                        k == Kind::Bool || k == Kind::Object
                    }),
    {
        reveal(AdvancementStatus::def_shape);
        match self {
            AdvancementStatus::Advancement(v0) => {
                assert(Self::alts()[0] == Shape::Bool);
                lemma_plain_legal(catalog(), level, Datum::Bool((*v0)));
            },
            AdvancementStatus::Criteria(v0) => {
                assert(Self::alts()[1] == bool_map_shape());
                bool_map_legal((*v0), level);
                let v = encode_spec(catalog(), level, bool_map_shape(), bool_map_datum(*v0));
                assert forall|j: int| 0 <= j < 1 implies (#[trigger] decode_spec(
                    catalog(),
                    level,
                    Self::alts()[j],
                    v,
                )) is Err by {
                    assert(Self::alts()[0] == Shape::Bool);
                    lemma_wrong_kind(catalog(), level, Shape::Bool, v);
                }
            },
        }
    }
}

/// The game modes.
#[derive(Debug, PartialEq, Eq)]
pub enum GameMode {
    Survival,
    Adventure,
    Creative,
    Spectator,
}

impl GameMode {
    /// The words that stand for the variants, in declaration order.
    pub open spec fn names() -> Seq<Seq<char>> {
        Seq::empty().push("Survival"@).push("Adventure"@).push("Creative"@).push("Spectator"@)
    }

    /// The model of this value.
    pub open spec fn datum(&self) -> Datum {
        Datum::Keyword(
            match self {
                GameMode::Survival => 0,
                GameMode::Adventure => 1,
                GameMode::Creative => 2,
                GameMode::Spectator => 3,
            },
        )
    }

    /// Whether `d` is the model of a value of this type.
    pub open spec fn valid(d: Datum) -> bool {
        d matches Datum::Keyword(i) && i < 4
    }

    /// The shape of the documents of this type.
    #[verifier::opaque]
    pub open spec fn def_shape() -> Shape {
        Shape::Keyword(Self::names())
    }

    /// The node of the documents of this type.
    pub fn def_node() -> (n: Node)
        ensures
            n.shape() == Self::def_shape(),
    {
        reveal(GameMode::def_shape);
        let mut names = no_words();
        push_word(&mut names, "Survival");
        push_word(&mut names, "Adventure");
        push_word(&mut names, "Creative");
        push_word(&mut names, "Spectator");
        Node::Keyword(names)
    }

    /// This value in generic form.
    pub fn to_instance(&self) -> (x: Instance)
        ensures
            x@ == self.datum(),
    {
        Instance::Keyword(
            match self {
                GameMode::Survival => 0,
                GameMode::Adventure => 1,
                GameMode::Creative => 2,
                GameMode::Spectator => 3,
            },
        )
    }

    /// The value that an instance stands for, if it stands for one.
    pub fn from_instance(x: &Instance) -> (r: Option<GameMode>)
        ensures
            match r {
                Some(t) => t.datum() == x@,
                None => !Self::valid(x@),
            },
    {
        match x {
            Instance::Keyword(i) => match *i {
                0 => Some(GameMode::Survival),
                1 => Some(GameMode::Adventure),
                2 => Some(GameMode::Creative),
                3 => Some(GameMode::Spectator),
                _ => None,
            },
            _ => None,
        }
    }

    /// The reference to the definition of this type.
    pub open spec fn shape() -> Shape {
        Shape::Ref(GAME_MODE as nat)
    }

    /// The node that refers to the definition of this type.
    pub fn node() -> (n: Node)
        ensures
            n.shape() == Self::shape(),
    {
        Node::Ref(GAME_MODE)
    }

    /// Every value of this type is a value of its shape.
    pub proof fn lemma_conforms(&self, level: nat)
        ensures
            conforms(catalog(), level, Self::def_shape(), self.datum()),
            conforms(catalog(), catalog().len(), Self::shape(), self.datum()),
    {
        lemma_catalog();
        self.lemma_conforms_def(GAME_MODE as nat);
        lemma_ref(catalog(), GAME_MODE as nat, self.datum());
        self.lemma_conforms_def(level);
    }

    /// Every value of the shape of this type is the model of one of its values.
    pub proof fn lemma_fits(d: Datum, level: nat)
        requires
            conforms(catalog(), level, Self::def_shape(), d) || conforms(
                catalog(),
                level,
                Self::shape(),
                d,
            ),
        ensures
            Self::valid(d),
    {
        lemma_catalog();
        if conforms(catalog(), level, Self::def_shape(), d) {
            Self::lemma_fits_def(d, level);
        } else {
            lemma_unref(catalog(), level, GAME_MODE as nat, d);
            Self::lemma_fits_def(d, GAME_MODE as nat);
        }
    }

    proof fn lemma_conforms_def(&self, level: nat)
        ensures
            conforms(catalog(), level, Self::def_shape(), self.datum()),
    {
        reveal(GameMode::def_shape);
        assert(Self::names().len() == 4);
    }

    proof fn lemma_fits_def(d: Datum, level: nat)
        requires
            conforms(catalog(), level, Self::def_shape(), d),
        ensures
            Self::valid(d),
    {
        reveal(GameMode::def_shape);
        assert(Self::names().len() == 4);
    }

    /// Every value of this type can be written and read back as itself.
    pub proof fn lemma_legal(&self, level: nat)
        ensures
            legal(catalog(), level, Self::def_shape(), self.datum()),
            legal(catalog(), catalog().len(), Self::shape(), self.datum()),
            encode_spec(catalog(), level, Self::def_shape(), self.datum()) is String,
            encode_spec(catalog(), catalog().len(), Self::shape(), self.datum()) is String,
    {
        lemma_catalog();
        self.lemma_legal_def(GAME_MODE as nat);
        lemma_written_by_reference(catalog(), catalog().len(), GAME_MODE as nat, self.datum());
        self.lemma_legal_def(level);
    }

    proof fn lemma_legal_def(&self, level: nat)
        ensures
            legal(catalog(), level, Self::def_shape(), self.datum()),
            encode_spec(catalog(), level, Self::def_shape(), self.datum()) is String,
    {
        reveal(GameMode::def_shape);
        assert(Self::names().len() == 4);
    }
}

/// A condition on one statistic of a player.
#[derive(Debug, PartialEq, Eq)]
pub struct Statistic {
    pub kind: String,
    pub stat: String,
    pub value: Ranged2<i64, i64>,
}

impl Statistic {
    /// The model of this value.
    pub open spec fn datum(&self) -> Datum {
        Datum::Record(
            Seq::empty()
                .push(Datum::Text(self.kind@))
                .push(Datum::Text(self.stat@))
                .push(ranged_int_datum(self.value)),
        )
    }

    /// Whether `d` is the model of a value of this type.
    pub open spec fn valid(d: Datum) -> bool {
        &&& d matches Datum::Record(vs)
        &&& vs.len() == 3
        &&& vs[0] is Text
        &&& vs[1] is Text
        &&& ranged_int_valid(vs[2])
    }

    /// The fields of this type, in declaration order.
    pub open spec fn fields() -> Seq<FieldShape> {
        Seq::empty()
            .push(required("type"@, Shape::Text))
            .push(required("stat"@, Shape::Text))
            .push(required("value"@, ranged_int_shape()))
    }

    /// The shape of the documents of this type.
    #[verifier::opaque]
    pub open spec fn def_shape() -> Shape {
        Shape::Record(Self::fields())
    }

    /// The node of the documents of this type.
    pub fn def_node() -> (n: Node)
        ensures
            n.shape() == Self::def_shape(),
    {
        reveal(Statistic::def_shape);
        let mut fields = no_fields();
        push_field(&mut fields, field_required("type", text_node()));
        push_field(&mut fields, field_required("stat", text_node()));
        push_field(&mut fields, field_required("value", ranged_int_node()));
        Node::Record(fields)
    }

    /// This value in generic form.
    pub fn to_instance(&self) -> (x: Instance)
        ensures
            x@ == self.datum(),
    {
        let mut values = no_values();
        push_value(&mut values, text_to(&self.kind));
        push_value(&mut values, text_to(&self.stat));
        push_value(&mut values, ranged_int_to(&self.value));
        Instance::Record(values)
    }

    /// The value that an instance stands for, if it stands for one.
    pub fn from_instance(x: &Instance) -> (r: Option<Statistic>)
        ensures
            match r {
                Some(t) => t.datum() == x@,
                None => !Self::valid(x@),
            },
    {
        match x {
            Instance::Record(values) => {
                assert(x@->Record_0 == data(values@));
                if values.len() != 3 {
                    return None;
                }
                let f0 = match text_from(&values[0]) {
                    Some(v) => v,
                    None => {
                        assert(data(values@)[0] == values[0]@);
                        return None;
                    },
                };
                let f1 = match text_from(&values[1]) {
                    Some(v) => v,
                    None => {
                        assert(data(values@)[1] == values[1]@);
                        return None;
                    },
                };
                let f2 = match ranged_int_from(&values[2]) {
                    Some(v) => v,
                    None => {
                        assert(data(values@)[2] == values[2]@);
                        return None;
                    },
                };
                let t = Statistic { kind: f0, stat: f1, value: f2 };
                assert(
                    data(values@) =~= Seq::empty()
                        .push(Datum::Text(t.kind@))
                        .push(Datum::Text(t.stat@))
                        .push(ranged_int_datum(t.value))
                );
                Some(t)
            },
            _ => None,
        }
    }

    /// The reference to the definition of this type.
    pub open spec fn shape() -> Shape {
        Shape::Ref(STATISTIC as nat)
    }

    /// The node that refers to the definition of this type.
    pub fn node() -> (n: Node)
        ensures
            n.shape() == Self::shape(),
    {
        Node::Ref(STATISTIC)
    }

    /// Every value of this type is a value of its shape.
    pub proof fn lemma_conforms(&self, level: nat)
        ensures
            conforms(catalog(), level, Self::def_shape(), self.datum()),
            conforms(catalog(), catalog().len(), Self::shape(), self.datum()),
    {
        lemma_catalog();
        self.lemma_conforms_def(STATISTIC as nat);
        lemma_ref(catalog(), STATISTIC as nat, self.datum());
        self.lemma_conforms_def(level);
    }

    /// Every value of the shape of this type is the model of one of its values.
    pub proof fn lemma_fits(d: Datum, level: nat)
        requires
            conforms(catalog(), level, Self::def_shape(), d) || conforms(
                catalog(),
                level,
                Self::shape(),
                d,
            ),
        ensures
            Self::valid(d),
    {
        lemma_catalog();
        if conforms(catalog(), level, Self::def_shape(), d) {
            Self::lemma_fits_def(d, level);
        } else {
            lemma_unref(catalog(), level, STATISTIC as nat, d);
            Self::lemma_fits_def(d, STATISTIC as nat);
        }
    }

    proof fn lemma_conforms_def(&self, level: nat)
        ensures
            conforms(catalog(), level, Self::def_shape(), self.datum()),
    {
        reveal(Statistic::def_shape);
        let fs0 = Seq::<FieldShape>::empty();
        let vs0 = Seq::<Datum>::empty();
        lemma_no_fields(catalog(), level);
        lemma_plain(catalog(), catalog().len(), Datum::Text(self.kind@));
        lemma_more_fields(
            catalog(),
            level,
            fs0,
            vs0,
            required("type"@, Shape::Text),
            Datum::Text(self.kind@),
        );
        let fs1 = fs0.push(required("type"@, Shape::Text));
        let vs1 = vs0.push(Datum::Text(self.kind@));
        lemma_plain(catalog(), catalog().len(), Datum::Text(self.stat@));
        lemma_more_fields(
            catalog(),
            level,
            fs1,
            vs1,
            required("stat"@, Shape::Text),
            Datum::Text(self.stat@),
        );
        let fs2 = fs1.push(required("stat"@, Shape::Text));
        let vs2 = vs1.push(Datum::Text(self.stat@));
        ranged_int_conforms(self.value, catalog().len());
        lemma_more_fields(
            catalog(),
            level,
            fs2,
            vs2,
            required("value"@, ranged_int_shape()),
            ranged_int_datum(self.value),
        );
        let fs3 = fs2.push(required("value"@, ranged_int_shape()));
        let vs3 = vs2.push(ranged_int_datum(self.value));
        lemma_record(catalog(), level, fs3, vs3);
    }

    proof fn lemma_fits_def(d: Datum, level: nat)
        requires
            conforms(catalog(), level, Self::def_shape(), d),
        ensures
            Self::valid(d),
    {
        reveal(Statistic::def_shape);
        let fields = Self::fields();
        let vs = d->Record_0;
        lemma_field(catalog(), level, fields, d, 0);
        assert(fields[0] == required("type"@, Shape::Text));
        lemma_plain(catalog(), catalog().len(), vs[0]);
        lemma_field(catalog(), level, fields, d, 1);
        assert(fields[1] == required("stat"@, Shape::Text));
        lemma_plain(catalog(), catalog().len(), vs[1]);
        lemma_field(catalog(), level, fields, d, 2);
        assert(fields[2] == required("value"@, ranged_int_shape()));
        ranged_int_fits(vs[2], catalog().len());
    }

    /// Every value of this type can be written and read back as itself.
    pub proof fn lemma_legal(&self, level: nat)
        ensures
            legal(catalog(), level, Self::def_shape(), self.datum()),
            legal(catalog(), catalog().len(), Self::shape(), self.datum()),
            encode_spec(catalog(), level, Self::def_shape(), self.datum()) is Object,
            encode_spec(catalog(), catalog().len(), Self::shape(), self.datum()) is Object,
    {
        lemma_catalog();
        self.lemma_legal_def(STATISTIC as nat);
        lemma_written_by_reference(catalog(), catalog().len(), STATISTIC as nat, self.datum());
        self.lemma_legal_def(level);
    }

    proof fn lemma_legal_def(&self, level: nat)
        ensures
            legal(catalog(), level, Self::def_shape(), self.datum()),
            encode_spec(catalog(), level, Self::def_shape(), self.datum()) is Object,
    {
        reveal(Statistic::def_shape);
        let fs0 = Seq::<FieldShape>::empty();
        let vs0 = Seq::<Datum>::empty();
        lemma_no_fields_legal(catalog(), level);
        lemma_plain_legal(catalog(), catalog().len(), Datum::Text(self.kind@));
        lemma_more_fields_legal(
            catalog(),
            level,
            fs0,
            vs0,
            required("type"@, Shape::Text),
            Datum::Text(self.kind@),
        );
        let fs1 = fs0.push(required("type"@, Shape::Text));
        let vs1 = vs0.push(Datum::Text(self.kind@));
        lemma_plain_legal(catalog(), catalog().len(), Datum::Text(self.stat@));
        lemma_more_fields_legal(
            catalog(),
            level,
            fs1,
            vs1,
            required("stat"@, Shape::Text),
            Datum::Text(self.stat@),
        );
        let fs2 = fs1.push(required("stat"@, Shape::Text));
        let vs2 = vs1.push(Datum::Text(self.stat@));
        ranged_int_legal(self.value, catalog().len());
        lemma_more_fields_legal(
            catalog(),
            level,
            fs2,
            vs2,
            required("value"@, ranged_int_shape()),
            ranged_int_datum(self.value),
        );
        let fs3 = fs2.push(required("value"@, ranged_int_shape()));
        let vs3 = vs2.push(ranged_int_datum(self.value));
        lemma_record_legal(catalog(), level, fs3, vs3);
    }
}

/// Conditions on an entity.
#[derive(Debug, PartialEq, Eq)]
pub struct Entity {
    pub distance: Option<Box<Distance>>,
    pub effects: Vec<(String, Effect)>,
    pub equipment: Option<Equipment>,
    pub flags: Option<EntityFlags>,
    pub lightning_bolt: Option<Box<LightningBolt>>,
    pub location: Option<Box<Location>>,
    pub nbt: Option<String>,
    pub passenger: Option<Box<Entity>>,
    pub player: Option<Box<Player>>,
    pub stepping_on: Option<Box<Location>>,
    pub team: Option<String>,
    pub kind: Option<String>,
    pub targeted_entity: Option<Box<Entity>>,
    pub vehicle: Option<Box<Entity>>,
}

impl Entity {
    /// The model of this value.
    pub open spec fn datum(&self) -> Datum
        decreases self,
    {
        Datum::Record(
            Seq::empty()
                .push(opt_distance_datum(self.distance))
                .push(effect_map_datum(self.effects))
                .push(opt_equipment_datum(self.equipment))
                .push(opt_entity_flags_datum(self.flags))
                .push(opt_lightning_bolt_datum(self.lightning_bolt))
                .push(opt_location_datum(self.location))
                .push(opt_text_datum(self.nbt))
                .push(opt_entity_datum(self.passenger))
                .push(opt_player_datum(self.player))
                .push(opt_location_datum(self.stepping_on))
                .push(opt_text_datum(self.team))
                .push(opt_text_datum(self.kind))
                .push(opt_entity_datum(self.targeted_entity))
                .push(opt_entity_datum(self.vehicle)),
        )
    }

    /// Whether `d` is the model of a value of this type.
    pub open spec fn valid(d: Datum) -> bool
        decreases d,
    {
        &&& d matches Datum::Record(vs)
        &&& vs.len() == 14
        &&& opt_distance_valid(vs[0])
        &&& effect_map_valid(vs[1])
        &&& opt_equipment_valid(vs[2])
        &&& opt_entity_flags_valid(vs[3])
        &&& opt_lightning_bolt_valid(vs[4])
        &&& opt_location_valid(vs[5])
        &&& opt_text_valid(vs[6])
        &&& opt_entity_valid(vs[7])
        &&& opt_player_valid(vs[8])
        &&& opt_location_valid(vs[9])
        &&& opt_text_valid(vs[10])
        &&& opt_text_valid(vs[11])
        &&& opt_entity_valid(vs[12])
        &&& opt_entity_valid(vs[13])
    }

    /// The fields of this type, in declaration order.
    pub open spec fn fields() -> Seq<FieldShape> {
        Seq::empty()
            .push(defaulted("distance"@, opt_distance_shape(), Datum::Absent, Omit::IfAbsent))
            .push(
                defaulted("effects"@, effect_map_shape(), Datum::Dict(Seq::empty()), Omit::IfEmpty)
            )
            .push(defaulted("equipment"@, opt_equipment_shape(), Datum::Absent, Omit::IfAbsent))
            .push(defaulted("flags"@, opt_entity_flags_shape(), Datum::Absent, Omit::IfAbsent))
            .push(
                defaulted(
                    "lightning_bolt"@,
                    opt_lightning_bolt_shape(),
                    Datum::Absent,
                    Omit::IfAbsent,
                )
            )
            .push(defaulted("location"@, opt_location_shape(), Datum::Absent, Omit::IfAbsent))
            .push(defaulted("nbt"@, opt_text_shape(), Datum::Absent, Omit::IfAbsent))
            .push(defaulted("passenger"@, opt_entity_shape(), Datum::Absent, Omit::IfAbsent))
            .push(defaulted("player"@, opt_player_shape(), Datum::Absent, Omit::IfAbsent))
            .push(defaulted("stepping_on"@, opt_location_shape(), Datum::Absent, Omit::IfAbsent))
            .push(defaulted("team"@, opt_text_shape(), Datum::Absent, Omit::IfAbsent))
            .push(defaulted("type"@, opt_text_shape(), Datum::Absent, Omit::IfAbsent))
            .push(defaulted("targeted_entity"@, opt_entity_shape(), Datum::Absent, Omit::IfAbsent))
            .push(defaulted("vehicle"@, opt_entity_shape(), Datum::Absent, Omit::IfAbsent))
    }

    /// The shape of the documents of this type.
    #[verifier::opaque]
    pub open spec fn def_shape() -> Shape {
        Shape::Record(Self::fields())
    }

    /// The node of the documents of this type.
    pub fn def_node() -> (n: Node)
        ensures
            n.shape() == Self::def_shape(),
    {
        reveal(Entity::def_shape);
        let mut fields = no_fields();
        push_field(
            &mut fields,
            field_defaulted("distance", opt_distance_node(), Instance::Absent, Omit::IfAbsent),
        );
        push_field(
            &mut fields,
            field_defaulted("effects", effect_map_node(), empty_map(), Omit::IfEmpty),
        );
        push_field(
            &mut fields,
            field_defaulted("equipment", opt_equipment_node(), Instance::Absent, Omit::IfAbsent),
        );
        push_field(
            &mut fields,
            field_defaulted("flags", opt_entity_flags_node(), Instance::Absent, Omit::IfAbsent),
        );
        push_field(
            &mut fields,
            field_defaulted(
                "lightning_bolt",
                opt_lightning_bolt_node(),
                Instance::Absent,
                Omit::IfAbsent,
            ),
        );
        push_field(
            &mut fields,
            field_defaulted("location", opt_location_node(), Instance::Absent, Omit::IfAbsent),
        );
        push_field(
            &mut fields,
            field_defaulted("nbt", opt_text_node(), Instance::Absent, Omit::IfAbsent),
        );
        push_field(
            &mut fields,
            field_defaulted("passenger", opt_entity_node(), Instance::Absent, Omit::IfAbsent),
        );
        push_field(
            &mut fields,
            field_defaulted("player", opt_player_node(), Instance::Absent, Omit::IfAbsent),
        );
        push_field(
            &mut fields,
            field_defaulted("stepping_on", opt_location_node(), Instance::Absent, Omit::IfAbsent),
        );
        push_field(
            &mut fields,
            field_defaulted("team", opt_text_node(), Instance::Absent, Omit::IfAbsent),
        );
        push_field(
            &mut fields,
            field_defaulted("type", opt_text_node(), Instance::Absent, Omit::IfAbsent),
        );
        push_field(
            &mut fields,
            field_defaulted("targeted_entity", opt_entity_node(), Instance::Absent, Omit::IfAbsent),
        );
        push_field(
            &mut fields,
            field_defaulted("vehicle", opt_entity_node(), Instance::Absent, Omit::IfAbsent),
        );
        Node::Record(fields)
    }

    /// This value in generic form.
    pub fn to_instance(&self) -> (x: Instance)
        ensures
            x@ == self.datum(),
                decreases self,
    {
        let mut values = no_values();
        push_value(&mut values, opt_distance_to(&self.distance));
        push_value(&mut values, effect_map_to(&self.effects));
        push_value(&mut values, opt_equipment_to(&self.equipment));
        push_value(&mut values, opt_entity_flags_to(&self.flags));
        push_value(&mut values, opt_lightning_bolt_to(&self.lightning_bolt));
        push_value(&mut values, opt_location_to(&self.location));
        push_value(&mut values, opt_text_to(&self.nbt));
        push_value(&mut values, opt_entity_to(&self.passenger));
        push_value(&mut values, opt_player_to(&self.player));
        push_value(&mut values, opt_location_to(&self.stepping_on));
        push_value(&mut values, opt_text_to(&self.team));
        push_value(&mut values, opt_text_to(&self.kind));
        push_value(&mut values, opt_entity_to(&self.targeted_entity));
        push_value(&mut values, opt_entity_to(&self.vehicle));
        Instance::Record(values)
    }

    /// The value that an instance stands for, if it stands for one.
    pub fn from_instance(x: &Instance) -> (r: Option<Entity>)
        ensures
            match r {
                Some(t) => t.datum() == x@,
                None => !Self::valid(x@),
            },
                decreases x,
    {
        match x {
            Instance::Record(values) => {
                assert(x@->Record_0 == data(values@));
                if values.len() != 14 {
                    return None;
                }
                let f0 = match opt_distance_from(&values[0]) {
                    Some(v) => v,
                    None => {
                        assert(data(values@)[0] == values[0]@);
                        return None;
                    },
                };
                let f1 = match effect_map_from(&values[1]) {
                    Some(v) => v,
                    None => {
                        assert(data(values@)[1] == values[1]@);
                        return None;
                    },
                };
                let f2 = match opt_equipment_from(&values[2]) {
                    Some(v) => v,
                    None => {
                        assert(data(values@)[2] == values[2]@);
                        return None;
                    },
                };
                let f3 = match opt_entity_flags_from(&values[3]) {
                    Some(v) => v,
                    None => {
                        assert(data(values@)[3] == values[3]@);
                        return None;
                    },
                };
                let f4 = match opt_lightning_bolt_from(&values[4]) {
                    Some(v) => v,
                    None => {
                        assert(data(values@)[4] == values[4]@);
                        return None;
                    },
                };
                let f5 = match opt_location_from(&values[5]) {
                    Some(v) => v,
                    None => {
                        assert(data(values@)[5] == values[5]@);
                        return None;
                    },
                };
                let f6 = match opt_text_from(&values[6]) {
                    Some(v) => v,
                    None => {
                        assert(data(values@)[6] == values[6]@);
                        return None;
                    },
                };
                let f7 = match opt_entity_from(&values[7]) {
                    Some(v) => v,
                    None => {
                        assert(data(values@)[7] == values[7]@);
                        return None;
                    },
                };
                let f8 = match opt_player_from(&values[8]) {
                    Some(v) => v,
                    None => {
                        assert(data(values@)[8] == values[8]@);
                        return None;
                    },
                };
                let f9 = match opt_location_from(&values[9]) {
                    Some(v) => v,
                    None => {
                        assert(data(values@)[9] == values[9]@);
                        return None;
                    },
                };
                let f10 = match opt_text_from(&values[10]) {
                    Some(v) => v,
                    None => {
                        assert(data(values@)[10] == values[10]@);
                        return None;
                    },
                };
                let f11 = match opt_text_from(&values[11]) {
                    Some(v) => v,
                    None => {
                        assert(data(values@)[11] == values[11]@);
                        return None;
                    },
                };
                let f12 = match opt_entity_from(&values[12]) {
                    Some(v) => v,
                    None => {
                        assert(data(values@)[12] == values[12]@);
                        return None;
                    },
                };
                let f13 = match opt_entity_from(&values[13]) {
                    Some(v) => v,
                    None => {
                        assert(data(values@)[13] == values[13]@);
                        return None;
                    },
                };
                let t = Entity { distance: f0, effects: f1, equipment: f2, flags: f3, lightning_bolt: f4, location: f5, nbt: f6, passenger: f7, player: f8, stepping_on: f9, team: f10, kind: f11, targeted_entity: f12, vehicle: f13 };
                assert(
                    data(values@) =~= Seq::empty()
                        .push(opt_distance_datum(t.distance))
                        .push(effect_map_datum(t.effects))
                        .push(opt_equipment_datum(t.equipment))
                        .push(opt_entity_flags_datum(t.flags))
                        .push(opt_lightning_bolt_datum(t.lightning_bolt))
                        .push(opt_location_datum(t.location))
                        .push(opt_text_datum(t.nbt))
                        .push(opt_entity_datum(t.passenger))
                        .push(opt_player_datum(t.player))
                        .push(opt_location_datum(t.stepping_on))
                        .push(opt_text_datum(t.team))
                        .push(opt_text_datum(t.kind))
                        .push(opt_entity_datum(t.targeted_entity))
                        .push(opt_entity_datum(t.vehicle))
                );
                Some(t)
            },
            _ => None,
        }
    }

    /// The reference to the definition of this type.
    pub open spec fn shape() -> Shape {
        Shape::Ref(ENTITY as nat)
    }

    /// The node that refers to the definition of this type.
    pub fn node() -> (n: Node)
        ensures
            n.shape() == Self::shape(),
    {
        Node::Ref(ENTITY)
    }

    /// Every value of this type is a value of its shape.
    pub proof fn lemma_conforms(&self, level: nat)
        ensures
            conforms(catalog(), level, Self::def_shape(), self.datum()),
            conforms(catalog(), catalog().len(), Self::shape(), self.datum()),
        decreases self, 1nat,
    {
        lemma_catalog();
        self.lemma_conforms_def(ENTITY as nat);
        lemma_ref(catalog(), ENTITY as nat, self.datum());
        self.lemma_conforms_def(level);
    }

    /// Every value of the shape of this type is the model of one of its values.
    pub proof fn lemma_fits(d: Datum, level: nat)
        requires
            conforms(catalog(), level, Self::def_shape(), d) || conforms(
                catalog(),
                level,
                Self::shape(),
                d,
            ),
        ensures
            Self::valid(d),
        decreases d, 1nat,
    {
        lemma_catalog();
        if conforms(catalog(), level, Self::def_shape(), d) {
            Self::lemma_fits_def(d, level);
        } else {
            lemma_unref(catalog(), level, ENTITY as nat, d);
            Self::lemma_fits_def(d, ENTITY as nat);
        }
    }

    proof fn lemma_conforms_def(&self, level: nat)
        ensures
            conforms(catalog(), level, Self::def_shape(), self.datum()),
                decreases self, 0nat,
    {
        reveal(Entity::def_shape);
        let fs0 = Seq::<FieldShape>::empty();
        let vs0 = Seq::<Datum>::empty();
        lemma_no_fields(catalog(), level);
        opt_distance_conforms(self.distance, catalog().len());
        lemma_more_fields(
            catalog(),
            level,
            fs0,
            vs0,
            defaulted("distance"@, opt_distance_shape(), Datum::Absent, Omit::IfAbsent),
            opt_distance_datum(self.distance),
        );
        let fs1 = fs0.push(
            defaulted("distance"@, opt_distance_shape(), Datum::Absent, Omit::IfAbsent)
        );
        let vs1 = vs0.push(opt_distance_datum(self.distance));
        effect_map_conforms(self.effects, catalog().len());
        lemma_more_fields(
            catalog(),
            level,
            fs1,
            vs1,
            defaulted("effects"@, effect_map_shape(), Datum::Dict(Seq::empty()), Omit::IfEmpty),
            effect_map_datum(self.effects),
        );
        let fs2 = fs1.push(
            defaulted("effects"@, effect_map_shape(), Datum::Dict(Seq::empty()), Omit::IfEmpty)
        );
        let vs2 = vs1.push(effect_map_datum(self.effects));
        opt_equipment_conforms(self.equipment, catalog().len());
        lemma_more_fields(
            catalog(),
            level,
            fs2,
            vs2,
            defaulted("equipment"@, opt_equipment_shape(), Datum::Absent, Omit::IfAbsent),
            opt_equipment_datum(self.equipment),
        );
        let fs3 = fs2.push(
            defaulted("equipment"@, opt_equipment_shape(), Datum::Absent, Omit::IfAbsent)
        );
        let vs3 = vs2.push(opt_equipment_datum(self.equipment));
        opt_entity_flags_conforms(self.flags, catalog().len());
        lemma_more_fields(
            catalog(),
            level,
            fs3,
            vs3,
            defaulted("flags"@, opt_entity_flags_shape(), Datum::Absent, Omit::IfAbsent),
            opt_entity_flags_datum(self.flags),
        );
        let fs4 = fs3.push(
            defaulted("flags"@, opt_entity_flags_shape(), Datum::Absent, Omit::IfAbsent)
        );
        let vs4 = vs3.push(opt_entity_flags_datum(self.flags));
        opt_lightning_bolt_conforms(self.lightning_bolt, catalog().len());
        lemma_more_fields(
            catalog(),
            level,
            fs4,
            vs4,
            defaulted("lightning_bolt"@, opt_lightning_bolt_shape(), Datum::Absent, Omit::IfAbsent),
            opt_lightning_bolt_datum(self.lightning_bolt),
        );
        let fs5 = fs4.push(
            defaulted("lightning_bolt"@, opt_lightning_bolt_shape(), Datum::Absent, Omit::IfAbsent)
        );
        let vs5 = vs4.push(opt_lightning_bolt_datum(self.lightning_bolt));
        opt_location_conforms(self.location, catalog().len());
        lemma_more_fields(
            catalog(),
            level,
            fs5,
            vs5,
            defaulted("location"@, opt_location_shape(), Datum::Absent, Omit::IfAbsent),
            opt_location_datum(self.location),
        );
        let fs6 = fs5.push(
            defaulted("location"@, opt_location_shape(), Datum::Absent, Omit::IfAbsent)
        );
        let vs6 = vs5.push(opt_location_datum(self.location));
        opt_text_conforms(self.nbt, catalog().len());
        lemma_more_fields(
            catalog(),
            level,
            fs6,
            vs6,
            defaulted("nbt"@, opt_text_shape(), Datum::Absent, Omit::IfAbsent),
            opt_text_datum(self.nbt),
        );
        let fs7 = fs6.push(defaulted("nbt"@, opt_text_shape(), Datum::Absent, Omit::IfAbsent));
        let vs7 = vs6.push(opt_text_datum(self.nbt));
        opt_entity_conforms(self.passenger, catalog().len());
        lemma_more_fields(
            catalog(),
            level,
            fs7,
            vs7,
            defaulted("passenger"@, opt_entity_shape(), Datum::Absent, Omit::IfAbsent),
            opt_entity_datum(self.passenger),
        );
        let fs8 = fs7.push(
            defaulted("passenger"@, opt_entity_shape(), Datum::Absent, Omit::IfAbsent)
        );
        let vs8 = vs7.push(opt_entity_datum(self.passenger));
        opt_player_conforms(self.player, catalog().len());
        lemma_more_fields(
            catalog(),
            level,
            fs8,
            vs8,
            defaulted("player"@, opt_player_shape(), Datum::Absent, Omit::IfAbsent),
            opt_player_datum(self.player),
        );
        let fs9 = fs8.push(defaulted("player"@, opt_player_shape(), Datum::Absent, Omit::IfAbsent));
        let vs9 = vs8.push(opt_player_datum(self.player));
        opt_location_conforms(self.stepping_on, catalog().len());
        lemma_more_fields(
            catalog(),
            level,
            fs9,
            vs9,
            defaulted("stepping_on"@, opt_location_shape(), Datum::Absent, Omit::IfAbsent),
            opt_location_datum(self.stepping_on),
        );
        let fs10 = fs9.push(
            defaulted("stepping_on"@, opt_location_shape(), Datum::Absent, Omit::IfAbsent)
        );
        let vs10 = vs9.push(opt_location_datum(self.stepping_on));
        opt_text_conforms(self.team, catalog().len());
        lemma_more_fields(
            catalog(),
            level,
            fs10,
            vs10,
            defaulted("team"@, opt_text_shape(), Datum::Absent, Omit::IfAbsent),
            opt_text_datum(self.team),
        );
        let fs11 = fs10.push(defaulted("team"@, opt_text_shape(), Datum::Absent, Omit::IfAbsent));
        let vs11 = vs10.push(opt_text_datum(self.team));
        opt_text_conforms(self.kind, catalog().len());
        lemma_more_fields(
            catalog(),
            level,
            fs11,
            vs11,
            defaulted("type"@, opt_text_shape(), Datum::Absent, Omit::IfAbsent),
            opt_text_datum(self.kind),
        );
        let fs12 = fs11.push(defaulted("type"@, opt_text_shape(), Datum::Absent, Omit::IfAbsent));
        let vs12 = vs11.push(opt_text_datum(self.kind));
        opt_entity_conforms(self.targeted_entity, catalog().len());
        lemma_more_fields(
            catalog(),
            level,
            fs12,
            vs12,
            defaulted("targeted_entity"@, opt_entity_shape(), Datum::Absent, Omit::IfAbsent),
            opt_entity_datum(self.targeted_entity),
        );
        let fs13 = fs12.push(
            defaulted("targeted_entity"@, opt_entity_shape(), Datum::Absent, Omit::IfAbsent)
        );
        let vs13 = vs12.push(opt_entity_datum(self.targeted_entity));
        opt_entity_conforms(self.vehicle, catalog().len());
        lemma_more_fields(
            catalog(),
            level,
            fs13,
            vs13,
            defaulted("vehicle"@, opt_entity_shape(), Datum::Absent, Omit::IfAbsent),
            opt_entity_datum(self.vehicle),
        );
        let fs14 = fs13.push(
            defaulted("vehicle"@, opt_entity_shape(), Datum::Absent, Omit::IfAbsent)
        );
        let vs14 = vs13.push(opt_entity_datum(self.vehicle));
        lemma_record(catalog(), level, fs14, vs14);
    }

    proof fn lemma_fits_def(d: Datum, level: nat)
        requires
            conforms(catalog(), level, Self::def_shape(), d),
        ensures
            Self::valid(d),
                decreases d, 0nat,
    {
        reveal(Entity::def_shape);
        let fields = Self::fields();
        let vs = d->Record_0;
        lemma_field(catalog(), level, fields, d, 0);
        assert(
            fields[0] == defaulted("distance"@, opt_distance_shape(), Datum::Absent, Omit::IfAbsent)
        );
        opt_distance_fits(vs[0], catalog().len());
        lemma_field(catalog(), level, fields, d, 1);
        assert(
            fields[1] == defaulted(
                "effects"@,
                effect_map_shape(),
                Datum::Dict(Seq::empty()),
                Omit::IfEmpty,
            )
        );
        effect_map_fits(vs[1], catalog().len());
        lemma_field(catalog(), level, fields, d, 2);
        assert(
            fields[2] == defaulted(
                "equipment"@,
                opt_equipment_shape(),
                Datum::Absent,
                Omit::IfAbsent,
            )
        );
        opt_equipment_fits(vs[2], catalog().len());
        lemma_field(catalog(), level, fields, d, 3);
        assert(
            fields[3] == defaulted(
                "flags"@,
                opt_entity_flags_shape(),
                Datum::Absent,
                Omit::IfAbsent,
            )
        );
        opt_entity_flags_fits(vs[3], catalog().len());
        lemma_field(catalog(), level, fields, d, 4);
        assert(
            fields[4] == defaulted(
                "lightning_bolt"@,
                opt_lightning_bolt_shape(),
                Datum::Absent,
                Omit::IfAbsent,
            )
        );
        opt_lightning_bolt_fits(vs[4], catalog().len());
        lemma_field(catalog(), level, fields, d, 5);
        assert(
            fields[5] == defaulted("location"@, opt_location_shape(), Datum::Absent, Omit::IfAbsent)
        );
        opt_location_fits(vs[5], catalog().len());
        lemma_field(catalog(), level, fields, d, 6);
        assert(fields[6] == defaulted("nbt"@, opt_text_shape(), Datum::Absent, Omit::IfAbsent));
        opt_text_fits(vs[6], catalog().len());
        lemma_field(catalog(), level, fields, d, 7);
        assert(
            fields[7] == defaulted("passenger"@, opt_entity_shape(), Datum::Absent, Omit::IfAbsent)
        );
        opt_entity_fits(vs[7], catalog().len());
        lemma_field(catalog(), level, fields, d, 8);
        assert(
            fields[8] == defaulted("player"@, opt_player_shape(), Datum::Absent, Omit::IfAbsent)
        );
        opt_player_fits(vs[8], catalog().len());
        lemma_field(catalog(), level, fields, d, 9);
        assert(
            fields[9] == defaulted(
                "stepping_on"@,
                opt_location_shape(),
                Datum::Absent,
                Omit::IfAbsent,
            )
        );
        opt_location_fits(vs[9], catalog().len());
        lemma_field(catalog(), level, fields, d, 10);
        assert(fields[10] == defaulted("team"@, opt_text_shape(), Datum::Absent, Omit::IfAbsent));
        opt_text_fits(vs[10], catalog().len());
        lemma_field(catalog(), level, fields, d, 11);
        assert(fields[11] == defaulted("type"@, opt_text_shape(), Datum::Absent, Omit::IfAbsent));
        opt_text_fits(vs[11], catalog().len());
        lemma_field(catalog(), level, fields, d, 12);
        assert(
            fields[12] == defaulted(
                "targeted_entity"@,
                opt_entity_shape(),
                Datum::Absent,
                Omit::IfAbsent,
            )
        );
        opt_entity_fits(vs[12], catalog().len());
        lemma_field(catalog(), level, fields, d, 13);
        assert(
            fields[13] == defaulted("vehicle"@, opt_entity_shape(), Datum::Absent, Omit::IfAbsent)
        );
        opt_entity_fits(vs[13], catalog().len());
    }

    /// Every value of this type can be written and read back as itself.
    pub proof fn lemma_legal(&self, level: nat)
        ensures
            legal(catalog(), level, Self::def_shape(), self.datum()),
            legal(catalog(), catalog().len(), Self::shape(), self.datum()),
            encode_spec(catalog(), level, Self::def_shape(), self.datum()) is Object,
            encode_spec(catalog(), catalog().len(), Self::shape(), self.datum()) is Object,
        decreases self, 1nat,
    {
        lemma_catalog();
        self.lemma_legal_def(ENTITY as nat);
        lemma_written_by_reference(catalog(), catalog().len(), ENTITY as nat, self.datum());
        self.lemma_legal_def(level);
    }

    proof fn lemma_legal_def(&self, level: nat)
        ensures
            legal(catalog(), level, Self::def_shape(), self.datum()),
            encode_spec(catalog(), level, Self::def_shape(), self.datum()) is Object,
        decreases self, 0nat,
    {
        reveal(Entity::def_shape);
        let fs0 = Seq::<FieldShape>::empty();
        let vs0 = Seq::<Datum>::empty();
        lemma_no_fields_legal(catalog(), level);
        opt_distance_legal(self.distance, catalog().len());
        lemma_more_fields_legal(
            catalog(),
            level,
            fs0,
            vs0,
            defaulted("distance"@, opt_distance_shape(), Datum::Absent, Omit::IfAbsent),
            opt_distance_datum(self.distance),
        );
        let fs1 = fs0.push(
            defaulted("distance"@, opt_distance_shape(), Datum::Absent, Omit::IfAbsent)
        );
        let vs1 = vs0.push(opt_distance_datum(self.distance));
        effect_map_legal(self.effects, catalog().len());
        lemma_more_fields_legal(
            catalog(),
            level,
            fs1,
            vs1,
            defaulted("effects"@, effect_map_shape(), Datum::Dict(Seq::empty()), Omit::IfEmpty),
            effect_map_datum(self.effects),
        );
        let fs2 = fs1.push(
            defaulted("effects"@, effect_map_shape(), Datum::Dict(Seq::empty()), Omit::IfEmpty)
        );
        let vs2 = vs1.push(effect_map_datum(self.effects));
        opt_equipment_legal(self.equipment, catalog().len());
        lemma_more_fields_legal(
            catalog(),
            level,
            fs2,
            vs2,
            defaulted("equipment"@, opt_equipment_shape(), Datum::Absent, Omit::IfAbsent),
            opt_equipment_datum(self.equipment),
        );
        let fs3 = fs2.push(
            defaulted("equipment"@, opt_equipment_shape(), Datum::Absent, Omit::IfAbsent)
        );
        let vs3 = vs2.push(opt_equipment_datum(self.equipment));
        opt_entity_flags_legal(self.flags, catalog().len());
        lemma_more_fields_legal(
            catalog(),
            level,
            fs3,
            vs3,
            defaulted("flags"@, opt_entity_flags_shape(), Datum::Absent, Omit::IfAbsent),
            opt_entity_flags_datum(self.flags),
        );
        let fs4 = fs3.push(
            defaulted("flags"@, opt_entity_flags_shape(), Datum::Absent, Omit::IfAbsent)
        );
        let vs4 = vs3.push(opt_entity_flags_datum(self.flags));
        opt_lightning_bolt_legal(self.lightning_bolt, catalog().len());
        lemma_more_fields_legal(
            catalog(),
            level,
            fs4,
            vs4,
            defaulted("lightning_bolt"@, opt_lightning_bolt_shape(), Datum::Absent, Omit::IfAbsent),
            opt_lightning_bolt_datum(self.lightning_bolt),
        );
        let fs5 = fs4.push(
            defaulted("lightning_bolt"@, opt_lightning_bolt_shape(), Datum::Absent, Omit::IfAbsent)
        );
        let vs5 = vs4.push(opt_lightning_bolt_datum(self.lightning_bolt));
        opt_location_legal(self.location, catalog().len());
        lemma_more_fields_legal(
            catalog(),
            level,
            fs5,
            vs5,
            defaulted("location"@, opt_location_shape(), Datum::Absent, Omit::IfAbsent),
            opt_location_datum(self.location),
        );
        let fs6 = fs5.push(
            defaulted("location"@, opt_location_shape(), Datum::Absent, Omit::IfAbsent)
        );
        let vs6 = vs5.push(opt_location_datum(self.location));
        opt_text_legal(self.nbt, catalog().len());
        lemma_more_fields_legal(
            catalog(),
            level,
            fs6,
            vs6,
            defaulted("nbt"@, opt_text_shape(), Datum::Absent, Omit::IfAbsent),
            opt_text_datum(self.nbt),
        );
        let fs7 = fs6.push(defaulted("nbt"@, opt_text_shape(), Datum::Absent, Omit::IfAbsent));
        let vs7 = vs6.push(opt_text_datum(self.nbt));
        opt_entity_legal(self.passenger, catalog().len());
        lemma_more_fields_legal(
            catalog(),
            level,
            fs7,
            vs7,
            defaulted("passenger"@, opt_entity_shape(), Datum::Absent, Omit::IfAbsent),
            opt_entity_datum(self.passenger),
        );
        let fs8 = fs7.push(
            defaulted("passenger"@, opt_entity_shape(), Datum::Absent, Omit::IfAbsent)
        );
        let vs8 = vs7.push(opt_entity_datum(self.passenger));
        opt_player_legal(self.player, catalog().len());
        lemma_more_fields_legal(
            catalog(),
            level,
            fs8,
            vs8,
            defaulted("player"@, opt_player_shape(), Datum::Absent, Omit::IfAbsent),
            opt_player_datum(self.player),
        );
        let fs9 = fs8.push(defaulted("player"@, opt_player_shape(), Datum::Absent, Omit::IfAbsent));
        let vs9 = vs8.push(opt_player_datum(self.player));
        opt_location_legal(self.stepping_on, catalog().len());
        lemma_more_fields_legal(
            catalog(),
            level,
            fs9,
            vs9,
            defaulted("stepping_on"@, opt_location_shape(), Datum::Absent, Omit::IfAbsent),
            opt_location_datum(self.stepping_on),
        );
        let fs10 = fs9.push(
            defaulted("stepping_on"@, opt_location_shape(), Datum::Absent, Omit::IfAbsent)
        );
        let vs10 = vs9.push(opt_location_datum(self.stepping_on));
        opt_text_legal(self.team, catalog().len());
        lemma_more_fields_legal(
            catalog(),
            level,
            fs10,
            vs10,
            defaulted("team"@, opt_text_shape(), Datum::Absent, Omit::IfAbsent),
            opt_text_datum(self.team),
        );
        let fs11 = fs10.push(defaulted("team"@, opt_text_shape(), Datum::Absent, Omit::IfAbsent));
        let vs11 = vs10.push(opt_text_datum(self.team));
        opt_text_legal(self.kind, catalog().len());
        lemma_more_fields_legal(
            catalog(),
            level,
            fs11,
            vs11,
            defaulted("type"@, opt_text_shape(), Datum::Absent, Omit::IfAbsent),
            opt_text_datum(self.kind),
        );
        let fs12 = fs11.push(defaulted("type"@, opt_text_shape(), Datum::Absent, Omit::IfAbsent));
        let vs12 = vs11.push(opt_text_datum(self.kind));
        opt_entity_legal(self.targeted_entity, catalog().len());
        lemma_more_fields_legal(
            catalog(),
            level,
            fs12,
            vs12,
            defaulted("targeted_entity"@, opt_entity_shape(), Datum::Absent, Omit::IfAbsent),
            opt_entity_datum(self.targeted_entity),
        );
        let fs13 = fs12.push(
            defaulted("targeted_entity"@, opt_entity_shape(), Datum::Absent, Omit::IfAbsent)
        );
        let vs13 = vs12.push(opt_entity_datum(self.targeted_entity));
        opt_entity_legal(self.vehicle, catalog().len());
        lemma_more_fields_legal(
            catalog(),
            level,
            fs13,
            vs13,
            defaulted("vehicle"@, opt_entity_shape(), Datum::Absent, Omit::IfAbsent),
            opt_entity_datum(self.vehicle),
        );
        let fs14 = fs13.push(
            defaulted("vehicle"@, opt_entity_shape(), Datum::Absent, Omit::IfAbsent)
        );
        let vs14 = vs13.push(opt_entity_datum(self.vehicle));
        lemma_record_legal(catalog(), level, fs14, vs14);
    }
}

impl Entity {
    /// The model of the default value of this type.
    pub open spec fn default_datum() -> Datum {
        Datum::Record(
            Seq::empty()
                .push(Datum::Absent)
                .push(Datum::Dict(Seq::empty()))
                .push(Datum::Absent)
                .push(Datum::Absent)
                .push(Datum::Absent)
                .push(Datum::Absent)
                .push(Datum::Absent)
                .push(Datum::Absent)
                .push(Datum::Absent)
                .push(Datum::Absent)
                .push(Datum::Absent)
                .push(Datum::Absent)
                .push(Datum::Absent)
                .push(Datum::Absent),
        )
    }
}

impl Default for Entity {
    fn default() -> (r: Entity)
        ensures
            r.datum() == Entity::default_datum(),
    {
        let r = Entity { distance: None, effects: Vec::new(), equipment: None, flags: None, lightning_bolt: None, location: None, nbt: None, passenger: None, player: None, stepping_on: None, team: None, kind: None, targeted_entity: None, vehicle: None };
        assert(effect_map_entries(r.effects@) =~= Seq::empty());
        r
    }
}

/// Conditions on a lightning bolt.
#[derive(Debug, PartialEq, Eq)]
pub struct LightningBolt {
    pub blocks_set_on_fire: Option<i64>,
    pub entity_struck: Option<Box<Entity>>,
    pub lightning_entity: Entity,
}

impl LightningBolt {
    /// The model of this value.
    pub open spec fn datum(&self) -> Datum
        decreases self,
    {
        Datum::Record(
            Seq::empty()
                .push(opt_int_datum(self.blocks_set_on_fire))
                .push(opt_entity_datum(self.entity_struck))
                .push(self.lightning_entity.datum()),
        )
    }

    /// Whether `d` is the model of a value of this type.
    pub open spec fn valid(d: Datum) -> bool
        decreases d,
    {
        &&& d matches Datum::Record(vs)
        &&& vs.len() == 3
        &&& opt_int_valid(vs[0])
        &&& opt_entity_valid(vs[1])
        &&& Entity::valid(vs[2])
    }

    /// The fields of this type, in declaration order.
    pub open spec fn fields() -> Seq<FieldShape> {
        Seq::empty()
            .push(defaulted("blocks_set_on_fire"@, opt_int_shape(), Datum::Absent, Omit::IfAbsent))
            .push(defaulted("entity_struck"@, opt_entity_shape(), Datum::Absent, Omit::IfAbsent))
            .push(flattened("lightning_entity"@, Entity::def_shape()))
    }

    /// The shape of the documents of this type.
    #[verifier::opaque]
    pub open spec fn def_shape() -> Shape {
        Shape::Record(Self::fields())
    }

    /// The node of the documents of this type.
    pub fn def_node() -> (n: Node)
        ensures
            n.shape() == Self::def_shape(),
    {
        reveal(LightningBolt::def_shape);
        let mut fields = no_fields();
        push_field(
            &mut fields,
            field_defaulted("blocks_set_on_fire", opt_int_node(), Instance::Absent, Omit::IfAbsent),
        );
        push_field(
            &mut fields,
            field_defaulted("entity_struck", opt_entity_node(), Instance::Absent, Omit::IfAbsent),
        );
        push_field(&mut fields, field_flattened("lightning_entity", Entity::def_node()));
        Node::Record(fields)
    }

    /// This value in generic form.
    pub fn to_instance(&self) -> (x: Instance)
        ensures
            x@ == self.datum(),
                decreases self,
    {
        let mut values = no_values();
        push_value(&mut values, opt_int_to(&self.blocks_set_on_fire));
        push_value(&mut values, opt_entity_to(&self.entity_struck));
        push_value(&mut values, Entity::to_instance(&self.lightning_entity));
        Instance::Record(values)
    }

    /// The value that an instance stands for, if it stands for one.
    pub fn from_instance(x: &Instance) -> (r: Option<LightningBolt>)
        ensures
            match r {
                Some(t) => t.datum() == x@,
                None => !Self::valid(x@),
            },
                decreases x,
    {
        match x {
            Instance::Record(values) => {
                assert(x@->Record_0 == data(values@));
                if values.len() != 3 {
                    return None;
                }
                let f0 = match opt_int_from(&values[0]) {
                    Some(v) => v,
                    None => {
                        assert(data(values@)[0] == values[0]@);
                        return None;
                    },
                };
                let f1 = match opt_entity_from(&values[1]) {
                    Some(v) => v,
                    None => {
                        assert(data(values@)[1] == values[1]@);
                        return None;
                    },
                };
                let f2 = match Entity::from_instance(&values[2]) {
                    Some(v) => v,
                    None => {
                        assert(data(values@)[2] == values[2]@);
                        return None;
                    },
                };
                let t = LightningBolt { blocks_set_on_fire: f0, entity_struck: f1, lightning_entity: f2 };
                assert(
                    data(values@) =~= Seq::empty()
                        .push(opt_int_datum(t.blocks_set_on_fire))
                        .push(opt_entity_datum(t.entity_struck))
                        .push(t.lightning_entity.datum())
                );
                Some(t)
            },
            _ => None,
        }
    }

    /// The reference to the definition of this type.
    pub open spec fn shape() -> Shape {
        Shape::Ref(LIGHTNING_BOLT as nat)
    }

    /// The node that refers to the definition of this type.
    pub fn node() -> (n: Node)
        ensures
            n.shape() == Self::shape(),
    {
        Node::Ref(LIGHTNING_BOLT)
    }

    /// Every value of this type is a value of its shape.
    pub proof fn lemma_conforms(&self, level: nat)
        ensures
            conforms(catalog(), level, Self::def_shape(), self.datum()),
            conforms(catalog(), catalog().len(), Self::shape(), self.datum()),
        decreases self, 1nat,
    {
        lemma_catalog();
        self.lemma_conforms_def(LIGHTNING_BOLT as nat);
        lemma_ref(catalog(), LIGHTNING_BOLT as nat, self.datum());
        self.lemma_conforms_def(level);
    }

    /// Every value of the shape of this type is the model of one of its values.
    pub proof fn lemma_fits(d: Datum, level: nat)
        requires
            conforms(catalog(), level, Self::def_shape(), d) || conforms(
                catalog(),
                level,
                Self::shape(),
                d,
            ),
        ensures
            Self::valid(d),
        decreases d, 1nat,
    {
        lemma_catalog();
        if conforms(catalog(), level, Self::def_shape(), d) {
            Self::lemma_fits_def(d, level);
        } else {
            lemma_unref(catalog(), level, LIGHTNING_BOLT as nat, d);
            Self::lemma_fits_def(d, LIGHTNING_BOLT as nat);
        }
    }

    proof fn lemma_conforms_def(&self, level: nat)
        ensures
            conforms(catalog(), level, Self::def_shape(), self.datum()),
                decreases self, 0nat,
    {
        reveal(LightningBolt::def_shape);
        let fs0 = Seq::<FieldShape>::empty();
        let vs0 = Seq::<Datum>::empty();
        lemma_no_fields(catalog(), level);
        opt_int_conforms(self.blocks_set_on_fire, catalog().len());
        lemma_more_fields(
            catalog(),
            level,
            fs0,
            vs0,
            defaulted("blocks_set_on_fire"@, opt_int_shape(), Datum::Absent, Omit::IfAbsent),
            opt_int_datum(self.blocks_set_on_fire),
        );
        let fs1 = fs0.push(
            defaulted("blocks_set_on_fire"@, opt_int_shape(), Datum::Absent, Omit::IfAbsent)
        );
        let vs1 = vs0.push(opt_int_datum(self.blocks_set_on_fire));
        opt_entity_conforms(self.entity_struck, catalog().len());
        lemma_more_fields(
            catalog(),
            level,
            fs1,
            vs1,
            defaulted("entity_struck"@, opt_entity_shape(), Datum::Absent, Omit::IfAbsent),
            opt_entity_datum(self.entity_struck),
        );
        let fs2 = fs1.push(
            defaulted("entity_struck"@, opt_entity_shape(), Datum::Absent, Omit::IfAbsent)
        );
        let vs2 = vs1.push(opt_entity_datum(self.entity_struck));
        self.lightning_entity.lemma_conforms(level);
        lemma_more_fields(
            catalog(),
            level,
            fs2,
            vs2,
            flattened("lightning_entity"@, Entity::def_shape()),
            self.lightning_entity.datum(),
        );
        let fs3 = fs2.push(flattened("lightning_entity"@, Entity::def_shape()));
        let vs3 = vs2.push(self.lightning_entity.datum());
        lemma_record(catalog(), level, fs3, vs3);
    }

    proof fn lemma_fits_def(d: Datum, level: nat)
        requires
            conforms(catalog(), level, Self::def_shape(), d),
        ensures
            Self::valid(d),
                decreases d, 0nat,
    {
        reveal(LightningBolt::def_shape);
        let fields = Self::fields();
        let vs = d->Record_0;
        lemma_field(catalog(), level, fields, d, 0);
        assert(
            fields[0] == defaulted(
                "blocks_set_on_fire"@,
                opt_int_shape(),
                Datum::Absent,
                Omit::IfAbsent,
            )
        );
        opt_int_fits(vs[0], catalog().len());
        lemma_field(catalog(), level, fields, d, 1);
        assert(
            fields[1] == defaulted(
                "entity_struck"@,
                opt_entity_shape(),
                Datum::Absent,
                Omit::IfAbsent,
            )
        );
        opt_entity_fits(vs[1], catalog().len());
        lemma_field(catalog(), level, fields, d, 2);
        assert(fields[2] == flattened("lightning_entity"@, Entity::def_shape()));
        Entity::lemma_fits(vs[2], level);
    }

    /// Every value of this type can be written and read back as itself.
    pub proof fn lemma_legal(&self, level: nat)
        ensures
            legal(catalog(), level, Self::def_shape(), self.datum()),
            legal(catalog(), catalog().len(), Self::shape(), self.datum()),
            encode_spec(catalog(), level, Self::def_shape(), self.datum()) is Object,
            encode_spec(catalog(), catalog().len(), Self::shape(), self.datum()) is Object,
        decreases self, 1nat,
    {
        lemma_catalog();
        self.lemma_legal_def(LIGHTNING_BOLT as nat);
        lemma_written_by_reference(catalog(), catalog().len(), LIGHTNING_BOLT as nat, self.datum());
        self.lemma_legal_def(level);
    }

    proof fn lemma_legal_def(&self, level: nat)
        ensures
            legal(catalog(), level, Self::def_shape(), self.datum()),
            encode_spec(catalog(), level, Self::def_shape(), self.datum()) is Object,
        decreases self, 0nat,
    {
        reveal(LightningBolt::def_shape);
        let fs0 = Seq::<FieldShape>::empty();
        let vs0 = Seq::<Datum>::empty();
        lemma_no_fields_legal(catalog(), level);
        opt_int_legal(self.blocks_set_on_fire, catalog().len());
        lemma_more_fields_legal(
            catalog(),
            level,
            fs0,
            vs0,
            defaulted("blocks_set_on_fire"@, opt_int_shape(), Datum::Absent, Omit::IfAbsent),
            opt_int_datum(self.blocks_set_on_fire),
        );
        let fs1 = fs0.push(
            defaulted("blocks_set_on_fire"@, opt_int_shape(), Datum::Absent, Omit::IfAbsent)
        );
        let vs1 = vs0.push(opt_int_datum(self.blocks_set_on_fire));
        opt_entity_legal(self.entity_struck, catalog().len());
        lemma_more_fields_legal(
            catalog(),
            level,
            fs1,
            vs1,
            defaulted("entity_struck"@, opt_entity_shape(), Datum::Absent, Omit::IfAbsent),
            opt_entity_datum(self.entity_struck),
        );
        let fs2 = fs1.push(
            defaulted("entity_struck"@, opt_entity_shape(), Datum::Absent, Omit::IfAbsent)
        );
        let vs2 = vs1.push(opt_entity_datum(self.entity_struck));
        self.lightning_entity.lemma_legal(level);
        lemma_more_fields_legal(
            catalog(),
            level,
            fs2,
            vs2,
            flattened("lightning_entity"@, Entity::def_shape()),
            self.lightning_entity.datum(),
        );
        let fs3 = fs2.push(flattened("lightning_entity"@, Entity::def_shape()));
        let vs3 = vs2.push(self.lightning_entity.datum());
        lemma_record_legal(catalog(), level, fs3, vs3);
    }
}

impl LightningBolt {
    /// The model of the default value of this type.
    pub open spec fn default_datum() -> Datum {
        Datum::Record(
            Seq::empty().push(Datum::Absent).push(Datum::Absent).push(Entity::default_datum())
        )
    }
}

impl Default for LightningBolt {
    fn default() -> (r: LightningBolt)
        ensures
            r.datum() == LightningBolt::default_datum(),
    {
        let r = LightningBolt { blocks_set_on_fire: None, entity_struck: None, lightning_entity: Entity::default() };
        r
    }
}

/// Conditions on a player.
#[derive(Debug, PartialEq, Eq)]
pub struct Player {
    pub looking_at: Option<Box<Entity>>,
    pub advancements: Vec<(String, AdvancementStatus)>,
    pub gamemode: Option<GameMode>,
    pub level: Option<Ranged2<i64, i64>>,
    pub recipes: Vec<(String, bool)>,
    pub stats: Vec<Statistic>,
}

impl Player {
    /// The model of this value.
    pub open spec fn datum(&self) -> Datum
        decreases self,
    {
        Datum::Record(
            Seq::empty()
                .push(opt_entity_datum(self.looking_at))
                .push(advancement_status_map_datum(self.advancements))
                .push(opt_game_mode_datum(self.gamemode))
                .push(opt_ranged_int_datum(self.level))
                .push(bool_map_datum(self.recipes))
                .push(statistic_list_datum(self.stats)),
        )
    }

    /// Whether `d` is the model of a value of this type.
    pub open spec fn valid(d: Datum) -> bool
        decreases d,
    {
        &&& d matches Datum::Record(vs)
        &&& vs.len() == 6
        &&& opt_entity_valid(vs[0])
        &&& advancement_status_map_valid(vs[1])
        &&& opt_game_mode_valid(vs[2])
        &&& opt_ranged_int_valid(vs[3])
        &&& bool_map_valid(vs[4])
        &&& statistic_list_valid(vs[5])
    }

    /// The fields of this type, in declaration order.
    pub open spec fn fields() -> Seq<FieldShape> {
        Seq::empty()
            .push(defaulted("looking_at"@, opt_entity_shape(), Datum::Absent, Omit::IfAbsent))
            .push(
                defaulted(
                    "advancements"@,
                    advancement_status_map_shape(),
                    Datum::Dict(Seq::empty()),
                    Omit::IfEmpty,
                )
            )
            .push(defaulted("gamemode"@, opt_game_mode_shape(), Datum::Absent, Omit::IfAbsent))
            .push(defaulted("level"@, opt_ranged_int_shape(), Datum::Absent, Omit::IfAbsent))
            .push(defaulted("recipes"@, bool_map_shape(), Datum::Dict(Seq::empty()), Omit::IfEmpty))
            .push(
                defaulted(
                    "stats"@,
                    statistic_list_shape(),
                    Datum::List(Seq::empty()),
                    Omit::IfEmpty,
                )
            )
    }

    /// The shape of the documents of this type.
    #[verifier::opaque]
    pub open spec fn def_shape() -> Shape {
        Shape::Record(Self::fields())
    }

    /// The node of the documents of this type.
    pub fn def_node() -> (n: Node)
        ensures
            n.shape() == Self::def_shape(),
    {
        reveal(Player::def_shape);
        let mut fields = no_fields();
        push_field(
            &mut fields,
            field_defaulted("looking_at", opt_entity_node(), Instance::Absent, Omit::IfAbsent),
        );
        push_field(
            &mut fields,
            field_defaulted(
                "advancements",
                advancement_status_map_node(),
                empty_map(),
                Omit::IfEmpty,
            ),
        );
        push_field(
            &mut fields,
            field_defaulted("gamemode", opt_game_mode_node(), Instance::Absent, Omit::IfAbsent),
        );
        push_field(
            &mut fields,
            field_defaulted("level", opt_ranged_int_node(), Instance::Absent, Omit::IfAbsent),
        );
        push_field(
            &mut fields,
            field_defaulted("recipes", bool_map_node(), empty_map(), Omit::IfEmpty),
        );
        push_field(
            &mut fields,
            field_defaulted("stats", statistic_list_node(), empty_list(), Omit::IfEmpty),
        );
        Node::Record(fields)
    }

    /// This value in generic form.
    pub fn to_instance(&self) -> (x: Instance)
        ensures
            x@ == self.datum(),
                decreases self,
    {
        let mut values = no_values();
        push_value(&mut values, opt_entity_to(&self.looking_at));
        push_value(&mut values, advancement_status_map_to(&self.advancements));
        push_value(&mut values, opt_game_mode_to(&self.gamemode));
        push_value(&mut values, opt_ranged_int_to(&self.level));
        push_value(&mut values, bool_map_to(&self.recipes));
        push_value(&mut values, statistic_list_to(&self.stats));
        Instance::Record(values)
    }

    /// The value that an instance stands for, if it stands for one.
    pub fn from_instance(x: &Instance) -> (r: Option<Player>)
        ensures
            match r {
                Some(t) => t.datum() == x@,
                None => !Self::valid(x@),
            },
                decreases x,
    {
        match x {
            Instance::Record(values) => {
                assert(x@->Record_0 == data(values@));
                if values.len() != 6 {
                    return None;
                }
                let f0 = match opt_entity_from(&values[0]) {
                    Some(v) => v,
                    None => {
                        assert(data(values@)[0] == values[0]@);
                        return None;
                    },
                };
                let f1 = match advancement_status_map_from(&values[1]) {
                    Some(v) => v,
                    None => {
                        assert(data(values@)[1] == values[1]@);
                        return None;
                    },
                };
                let f2 = match opt_game_mode_from(&values[2]) {
                    Some(v) => v,
                    None => {
                        assert(data(values@)[2] == values[2]@);
                        return None;
                    },
                };
                let f3 = match opt_ranged_int_from(&values[3]) {
                    Some(v) => v,
                    None => {
                        assert(data(values@)[3] == values[3]@);
                        return None;
                    },
                };
                let f4 = match bool_map_from(&values[4]) {
                    Some(v) => v,
                    None => {
                        assert(data(values@)[4] == values[4]@);
                        return None;
                    },
                };
                let f5 = match statistic_list_from(&values[5]) {
                    Some(v) => v,
                    None => {
                        assert(data(values@)[5] == values[5]@);
                        return None;
                    },
                };
                let t = Player { looking_at: f0, advancements: f1, gamemode: f2, level: f3, recipes: f4, stats: f5 };
                assert(
                    data(values@) =~= Seq::empty()
                        .push(opt_entity_datum(t.looking_at))
                        .push(advancement_status_map_datum(t.advancements))
                        .push(opt_game_mode_datum(t.gamemode))
                        .push(opt_ranged_int_datum(t.level))
                        .push(bool_map_datum(t.recipes))
                        .push(statistic_list_datum(t.stats))
                );
                Some(t)
            },
            _ => None,
        }
    }

    /// The reference to the definition of this type.
    pub open spec fn shape() -> Shape {
        Shape::Ref(PLAYER as nat)
    }

    /// The node that refers to the definition of this type.
    pub fn node() -> (n: Node)
        ensures
            n.shape() == Self::shape(),
    {
        Node::Ref(PLAYER)
    }

    /// Every value of this type is a value of its shape.
    pub proof fn lemma_conforms(&self, level: nat)
        ensures
            conforms(catalog(), level, Self::def_shape(), self.datum()),
            conforms(catalog(), catalog().len(), Self::shape(), self.datum()),
        decreases self, 1nat,
    {
        lemma_catalog();
        self.lemma_conforms_def(PLAYER as nat);
        lemma_ref(catalog(), PLAYER as nat, self.datum());
        self.lemma_conforms_def(level);
    }

    /// Every value of the shape of this type is the model of one of its values.
    pub proof fn lemma_fits(d: Datum, level: nat)
        requires
            conforms(catalog(), level, Self::def_shape(), d) || conforms(
                catalog(),
                level,
                Self::shape(),
                d,
            ),
        ensures
            Self::valid(d),
        decreases d, 1nat,
    {
        lemma_catalog();
        if conforms(catalog(), level, Self::def_shape(), d) {
            Self::lemma_fits_def(d, level);
        } else {
            lemma_unref(catalog(), level, PLAYER as nat, d);
            Self::lemma_fits_def(d, PLAYER as nat);
        }
    }

    proof fn lemma_conforms_def(&self, level: nat)
        ensures
            conforms(catalog(), level, Self::def_shape(), self.datum()),
                decreases self, 0nat,
    {
        reveal(Player::def_shape);
        let fs0 = Seq::<FieldShape>::empty();
        let vs0 = Seq::<Datum>::empty();
        lemma_no_fields(catalog(), level);
        opt_entity_conforms(self.looking_at, catalog().len());
        lemma_more_fields(
            catalog(),
            level,
            fs0,
            vs0,
            defaulted("looking_at"@, opt_entity_shape(), Datum::Absent, Omit::IfAbsent),
            opt_entity_datum(self.looking_at),
        );
        let fs1 = fs0.push(
            defaulted("looking_at"@, opt_entity_shape(), Datum::Absent, Omit::IfAbsent)
        );
        let vs1 = vs0.push(opt_entity_datum(self.looking_at));
        advancement_status_map_conforms(self.advancements, catalog().len());
        lemma_more_fields(
            catalog(),
            level,
            fs1,
            vs1,
            defaulted(
                "advancements"@,
                advancement_status_map_shape(),
                Datum::Dict(Seq::empty()),
                Omit::IfEmpty,
            ),
            advancement_status_map_datum(self.advancements),
        );
        let fs2 = fs1.push(
            defaulted(
                "advancements"@,
                advancement_status_map_shape(),
                Datum::Dict(Seq::empty()),
                Omit::IfEmpty,
            )
        );
        let vs2 = vs1.push(advancement_status_map_datum(self.advancements));
        opt_game_mode_conforms(self.gamemode, catalog().len());
        lemma_more_fields(
            catalog(),
            level,
            fs2,
            vs2,
            defaulted("gamemode"@, opt_game_mode_shape(), Datum::Absent, Omit::IfAbsent),
            opt_game_mode_datum(self.gamemode),
        );
        let fs3 = fs2.push(
            defaulted("gamemode"@, opt_game_mode_shape(), Datum::Absent, Omit::IfAbsent)
        );
        let vs3 = vs2.push(opt_game_mode_datum(self.gamemode));
        opt_ranged_int_conforms(self.level, catalog().len());
        lemma_more_fields(
            catalog(),
            level,
            fs3,
            vs3,
            defaulted("level"@, opt_ranged_int_shape(), Datum::Absent, Omit::IfAbsent),
            opt_ranged_int_datum(self.level),
        );
        let fs4 = fs3.push(
            defaulted("level"@, opt_ranged_int_shape(), Datum::Absent, Omit::IfAbsent)
        );
        let vs4 = vs3.push(opt_ranged_int_datum(self.level));
        bool_map_conforms(self.recipes, catalog().len());
        lemma_more_fields(
            catalog(),
            level,
            fs4,
            vs4,
            defaulted("recipes"@, bool_map_shape(), Datum::Dict(Seq::empty()), Omit::IfEmpty),
            bool_map_datum(self.recipes),
        );
        let fs5 = fs4.push(
            defaulted("recipes"@, bool_map_shape(), Datum::Dict(Seq::empty()), Omit::IfEmpty)
        );
        let vs5 = vs4.push(bool_map_datum(self.recipes));
        statistic_list_conforms(self.stats, catalog().len());
        lemma_more_fields(
            catalog(),
            level,
            fs5,
            vs5,
            defaulted("stats"@, statistic_list_shape(), Datum::List(Seq::empty()), Omit::IfEmpty),
            statistic_list_datum(self.stats),
        );
        let fs6 = fs5.push(
            defaulted("stats"@, statistic_list_shape(), Datum::List(Seq::empty()), Omit::IfEmpty)
        );
        let vs6 = vs5.push(statistic_list_datum(self.stats));
        lemma_record(catalog(), level, fs6, vs6);
    }

    proof fn lemma_fits_def(d: Datum, level: nat)
        requires
            conforms(catalog(), level, Self::def_shape(), d),
        ensures
            Self::valid(d),
                decreases d, 0nat,
    {
        reveal(Player::def_shape);
        let fields = Self::fields();
        let vs = d->Record_0;
        lemma_field(catalog(), level, fields, d, 0);
        assert(
            fields[0] == defaulted("looking_at"@, opt_entity_shape(), Datum::Absent, Omit::IfAbsent)
        );
        opt_entity_fits(vs[0], catalog().len());
        lemma_field(catalog(), level, fields, d, 1);
        assert(
            fields[1] == defaulted(
                "advancements"@,
                advancement_status_map_shape(),
                Datum::Dict(Seq::empty()),
                Omit::IfEmpty,
            )
        );
        advancement_status_map_fits(vs[1], catalog().len());
        lemma_field(catalog(), level, fields, d, 2);
        assert(
            fields[2] == defaulted(
                "gamemode"@,
                opt_game_mode_shape(),
                Datum::Absent,
                Omit::IfAbsent,
            )
        );
        opt_game_mode_fits(vs[2], catalog().len());
        lemma_field(catalog(), level, fields, d, 3);
        assert(
            fields[3] == defaulted("level"@, opt_ranged_int_shape(), Datum::Absent, Omit::IfAbsent)
        );
        opt_ranged_int_fits(vs[3], catalog().len());
        lemma_field(catalog(), level, fields, d, 4);
        assert(
            fields[4] == defaulted(
                "recipes"@,
                bool_map_shape(),
                Datum::Dict(Seq::empty()),
                Omit::IfEmpty,
            )
        );
        bool_map_fits(vs[4], catalog().len());
        lemma_field(catalog(), level, fields, d, 5);
        assert(
            fields[5] == defaulted(
                "stats"@,
                statistic_list_shape(),
                Datum::List(Seq::empty()),
                Omit::IfEmpty,
            )
        );
        statistic_list_fits(vs[5], catalog().len());
    }

    /// Every value of this type can be written and read back as itself.
    pub proof fn lemma_legal(&self, level: nat)
        ensures
            legal(catalog(), level, Self::def_shape(), self.datum()),
            legal(catalog(), catalog().len(), Self::shape(), self.datum()),
            encode_spec(catalog(), level, Self::def_shape(), self.datum()) is Object,
            encode_spec(catalog(), catalog().len(), Self::shape(), self.datum()) is Object,
        decreases self, 1nat,
    {
        lemma_catalog();
        self.lemma_legal_def(PLAYER as nat);
        lemma_written_by_reference(catalog(), catalog().len(), PLAYER as nat, self.datum());
        self.lemma_legal_def(level);
    }

    proof fn lemma_legal_def(&self, level: nat)
        ensures
            legal(catalog(), level, Self::def_shape(), self.datum()),
            encode_spec(catalog(), level, Self::def_shape(), self.datum()) is Object,
        decreases self, 0nat,
    {
        reveal(Player::def_shape);
        let fs0 = Seq::<FieldShape>::empty();
        let vs0 = Seq::<Datum>::empty();
        lemma_no_fields_legal(catalog(), level);
        opt_entity_legal(self.looking_at, catalog().len());
        lemma_more_fields_legal(
            catalog(),
            level,
            fs0,
            vs0,
            defaulted("looking_at"@, opt_entity_shape(), Datum::Absent, Omit::IfAbsent),
            opt_entity_datum(self.looking_at),
        );
        let fs1 = fs0.push(
            defaulted("looking_at"@, opt_entity_shape(), Datum::Absent, Omit::IfAbsent)
        );
        let vs1 = vs0.push(opt_entity_datum(self.looking_at));
        advancement_status_map_legal(self.advancements, catalog().len());
        lemma_more_fields_legal(
            catalog(),
            level,
            fs1,
            vs1,
            defaulted(
                "advancements"@,
                advancement_status_map_shape(),
                Datum::Dict(Seq::empty()),
                Omit::IfEmpty,
            ),
            advancement_status_map_datum(self.advancements),
        );
        let fs2 = fs1.push(
            defaulted(
                "advancements"@,
                advancement_status_map_shape(),
                Datum::Dict(Seq::empty()),
                Omit::IfEmpty,
            )
        );
        let vs2 = vs1.push(advancement_status_map_datum(self.advancements));
        opt_game_mode_legal(self.gamemode, catalog().len());
        lemma_more_fields_legal(
            catalog(),
            level,
            fs2,
            vs2,
            defaulted("gamemode"@, opt_game_mode_shape(), Datum::Absent, Omit::IfAbsent),
            opt_game_mode_datum(self.gamemode),
        );
        let fs3 = fs2.push(
            defaulted("gamemode"@, opt_game_mode_shape(), Datum::Absent, Omit::IfAbsent)
        );
        let vs3 = vs2.push(opt_game_mode_datum(self.gamemode));
        opt_ranged_int_legal(self.level, catalog().len());
        lemma_more_fields_legal(
            catalog(),
            level,
            fs3,
            vs3,
            defaulted("level"@, opt_ranged_int_shape(), Datum::Absent, Omit::IfAbsent),
            opt_ranged_int_datum(self.level),
        );
        let fs4 = fs3.push(
            defaulted("level"@, opt_ranged_int_shape(), Datum::Absent, Omit::IfAbsent)
        );
        let vs4 = vs3.push(opt_ranged_int_datum(self.level));
        bool_map_legal(self.recipes, catalog().len());
        lemma_more_fields_legal(
            catalog(),
            level,
            fs4,
            vs4,
            defaulted("recipes"@, bool_map_shape(), Datum::Dict(Seq::empty()), Omit::IfEmpty),
            bool_map_datum(self.recipes),
        );
        let fs5 = fs4.push(
            defaulted("recipes"@, bool_map_shape(), Datum::Dict(Seq::empty()), Omit::IfEmpty)
        );
        let vs5 = vs4.push(bool_map_datum(self.recipes));
        statistic_list_legal(self.stats, catalog().len());
        lemma_more_fields_legal(
            catalog(),
            level,
            fs5,
            vs5,
            defaulted("stats"@, statistic_list_shape(), Datum::List(Seq::empty()), Omit::IfEmpty),
            statistic_list_datum(self.stats),
        );
        let fs6 = fs5.push(
            defaulted("stats"@, statistic_list_shape(), Datum::List(Seq::empty()), Omit::IfEmpty)
        );
        let vs6 = vs5.push(statistic_list_datum(self.stats));
        lemma_record_legal(catalog(), level, fs6, vs6);
    }
}

impl Player {
    /// The model of the default value of this type.
    pub open spec fn default_datum() -> Datum {
        Datum::Record(
            Seq::empty()
                .push(Datum::Absent)
                .push(Datum::Dict(Seq::empty()))
                .push(Datum::Absent)
                .push(Datum::Absent)
                .push(Datum::Dict(Seq::empty()))
                .push(Datum::List(Seq::empty())),
        )
    }
}

impl Default for Player {
    fn default() -> (r: Player)
        ensures
            r.datum() == Player::default_datum(),
    {
        let r = Player { looking_at: None, advancements: Vec::new(), gamemode: None, level: None, recipes: Vec::new(), stats: Vec::new() };
        assert(advancement_status_map_entries(r.advancements@) =~= Seq::empty());
        assert(bool_map_entries(r.recipes@) =~= Seq::empty());
        assert(statistic_list_data(r.stats@) =~= Seq::empty());
        r
    }
}

/// Conditions on where damage came from.
#[derive(Debug, PartialEq, Eq)]
pub struct DamageSource {
    pub bypasses_armor: Option<bool>,
    pub bypasses_invulnerability: Option<bool>,
    pub bypasses_magic: Option<bool>,
    pub direct_entity: Option<Box<Entity>>,
    pub is_explosion: Option<bool>,
    pub is_fire: Option<bool>,
    pub is_magic: Option<bool>,
    pub is_projectile: Option<bool>,
    pub is_lightning: Option<bool>,
    pub source_entity: Option<Box<Entity>>,
}

impl DamageSource {
    /// The model of this value.
    pub open spec fn datum(&self) -> Datum {
        Datum::Record(
            Seq::empty()
                .push(opt_bool_datum(self.bypasses_armor))
                .push(opt_bool_datum(self.bypasses_invulnerability))
                .push(opt_bool_datum(self.bypasses_magic))
                .push(opt_entity_datum(self.direct_entity))
                .push(opt_bool_datum(self.is_explosion))
                .push(opt_bool_datum(self.is_fire))
                .push(opt_bool_datum(self.is_magic))
                .push(opt_bool_datum(self.is_projectile))
                .push(opt_bool_datum(self.is_lightning))
                .push(opt_entity_datum(self.source_entity)),
        )
    }

    /// Whether `d` is the model of a value of this type.
    pub open spec fn valid(d: Datum) -> bool {
        &&& d matches Datum::Record(vs)
        &&& vs.len() == 10
        &&& opt_bool_valid(vs[0])
        &&& opt_bool_valid(vs[1])
        &&& opt_bool_valid(vs[2])
        &&& opt_entity_valid(vs[3])
        &&& opt_bool_valid(vs[4])
        &&& opt_bool_valid(vs[5])
        &&& opt_bool_valid(vs[6])
        &&& opt_bool_valid(vs[7])
        &&& opt_bool_valid(vs[8])
        &&& opt_entity_valid(vs[9])
    }

    /// The fields of this type, in declaration order.
    pub open spec fn fields() -> Seq<FieldShape> {
        Seq::empty()
            .push(defaulted("bypasses_armor"@, opt_bool_shape(), Datum::Absent, Omit::IfAbsent))
            .push(
                defaulted(
                    "bypasses_invulnerability"@,
                    opt_bool_shape(),
                    Datum::Absent,
                    Omit::IfAbsent,
                )
            )
            .push(defaulted("bypasses_magic"@, opt_bool_shape(), Datum::Absent, Omit::IfAbsent))
            .push(defaulted("direct_entity"@, opt_entity_shape(), Datum::Absent, Omit::IfAbsent))
            .push(defaulted("is_explosion"@, opt_bool_shape(), Datum::Absent, Omit::IfAbsent))
            .push(defaulted("is_fire"@, opt_bool_shape(), Datum::Absent, Omit::IfAbsent))
            .push(defaulted("is_magic"@, opt_bool_shape(), Datum::Absent, Omit::IfAbsent))
            .push(defaulted("is_projectile"@, opt_bool_shape(), Datum::Absent, Omit::IfAbsent))
            .push(defaulted("is_lightning"@, opt_bool_shape(), Datum::Absent, Omit::IfAbsent))
            .push(defaulted("source_entity"@, opt_entity_shape(), Datum::Absent, Omit::IfAbsent))
    }

    /// The shape of the documents of this type.
    #[verifier::opaque]
    pub open spec fn def_shape() -> Shape {
        Shape::Record(Self::fields())
    }

    /// The node of the documents of this type.
    pub fn def_node() -> (n: Node)
        ensures
            n.shape() == Self::def_shape(),
    {
        reveal(DamageSource::def_shape);
        let mut fields = no_fields();
        push_field(
            &mut fields,
            field_defaulted("bypasses_armor", opt_bool_node(), Instance::Absent, Omit::IfAbsent),
        );
        push_field(
            &mut fields,
            field_defaulted(
                "bypasses_invulnerability",
                opt_bool_node(),
                Instance::Absent,
                Omit::IfAbsent,
            ),
        );
        push_field(
            &mut fields,
            field_defaulted("bypasses_magic", opt_bool_node(), Instance::Absent, Omit::IfAbsent),
        );
        push_field(
            &mut fields,
            field_defaulted("direct_entity", opt_entity_node(), Instance::Absent, Omit::IfAbsent),
        );
        push_field(
            &mut fields,
            field_defaulted("is_explosion", opt_bool_node(), Instance::Absent, Omit::IfAbsent),
        );
        push_field(
            &mut fields,
            field_defaulted("is_fire", opt_bool_node(), Instance::Absent, Omit::IfAbsent),
        );
        push_field(
            &mut fields,
            field_defaulted("is_magic", opt_bool_node(), Instance::Absent, Omit::IfAbsent),
        );
        push_field(
            &mut fields,
            field_defaulted("is_projectile", opt_bool_node(), Instance::Absent, Omit::IfAbsent),
        );
        push_field(
            &mut fields,
            field_defaulted("is_lightning", opt_bool_node(), Instance::Absent, Omit::IfAbsent),
        );
        push_field(
            &mut fields,
            field_defaulted("source_entity", opt_entity_node(), Instance::Absent, Omit::IfAbsent),
        );
        Node::Record(fields)
    }

    /// This value in generic form.
    pub fn to_instance(&self) -> (x: Instance)
        ensures
            x@ == self.datum(),
    {
        let mut values = no_values();
        push_value(&mut values, opt_bool_to(&self.bypasses_armor));
        push_value(&mut values, opt_bool_to(&self.bypasses_invulnerability));
        push_value(&mut values, opt_bool_to(&self.bypasses_magic));
        push_value(&mut values, opt_entity_to(&self.direct_entity));
        push_value(&mut values, opt_bool_to(&self.is_explosion));
        push_value(&mut values, opt_bool_to(&self.is_fire));
        push_value(&mut values, opt_bool_to(&self.is_magic));
        push_value(&mut values, opt_bool_to(&self.is_projectile));
        push_value(&mut values, opt_bool_to(&self.is_lightning));
        push_value(&mut values, opt_entity_to(&self.source_entity));
        Instance::Record(values)
    }

    /// The value that an instance stands for, if it stands for one.
    pub fn from_instance(x: &Instance) -> (r: Option<DamageSource>)
        ensures
            match r {
                Some(t) => t.datum() == x@,
                None => !Self::valid(x@),
            },
    {
        match x {
            Instance::Record(values) => {
                assert(x@->Record_0 == data(values@));
                if values.len() != 10 {
                    return None;
                }
                let f0 = match opt_bool_from(&values[0]) {
                    Some(v) => v,
                    None => {
                        assert(data(values@)[0] == values[0]@);
                        return None;
                    },
                };
                let f1 = match opt_bool_from(&values[1]) {
                    Some(v) => v,
                    None => {
                        assert(data(values@)[1] == values[1]@);
                        return None;
                    },
                };
                let f2 = match opt_bool_from(&values[2]) {
                    Some(v) => v,
                    None => {
                        assert(data(values@)[2] == values[2]@);
                        return None;
                    },
                };
                let f3 = match opt_entity_from(&values[3]) {
                    Some(v) => v,
                    None => {
                        assert(data(values@)[3] == values[3]@);
                        return None;
                    },
                };
                let f4 = match opt_bool_from(&values[4]) {
                    Some(v) => v,
                    None => {
                        assert(data(values@)[4] == values[4]@);
                        return None;
                    },
                };
                let f5 = match opt_bool_from(&values[5]) {
                    Some(v) => v,
                    None => {
                        assert(data(values@)[5] == values[5]@);
                        return None;
                    },
                };
                let f6 = match opt_bool_from(&values[6]) {
                    Some(v) => v,
                    None => {
                        assert(data(values@)[6] == values[6]@);
                        return None;
                    },
                };
                let f7 = match opt_bool_from(&values[7]) {
                    Some(v) => v,
                    None => {
                        assert(data(values@)[7] == values[7]@);
                        return None;
                    },
                };
                let f8 = match opt_bool_from(&values[8]) {
                    Some(v) => v,
                    None => {
                        assert(data(values@)[8] == values[8]@);
                        return None;
                    },
                };
                let f9 = match opt_entity_from(&values[9]) {
                    Some(v) => v,
                    None => {
                        assert(data(values@)[9] == values[9]@);
                        return None;
                    },
                };
                let t = DamageSource { bypasses_armor: f0, bypasses_invulnerability: f1, bypasses_magic: f2, direct_entity: f3, is_explosion: f4, is_fire: f5, is_magic: f6, is_projectile: f7, is_lightning: f8, source_entity: f9 };
                assert(
                    data(values@) =~= Seq::empty()
                        .push(opt_bool_datum(t.bypasses_armor))
                        .push(opt_bool_datum(t.bypasses_invulnerability))
                        .push(opt_bool_datum(t.bypasses_magic))
                        .push(opt_entity_datum(t.direct_entity))
                        .push(opt_bool_datum(t.is_explosion))
                        .push(opt_bool_datum(t.is_fire))
                        .push(opt_bool_datum(t.is_magic))
                        .push(opt_bool_datum(t.is_projectile))
                        .push(opt_bool_datum(t.is_lightning))
                        .push(opt_entity_datum(t.source_entity))
                );
                Some(t)
            },
            _ => None,
        }
    }

    /// The reference to the definition of this type.
    pub open spec fn shape() -> Shape {
        Shape::Ref(DAMAGE_SOURCE as nat)
    }

    /// The node that refers to the definition of this type.
    pub fn node() -> (n: Node)
        ensures
            n.shape() == Self::shape(),
    {
        Node::Ref(DAMAGE_SOURCE)
    }

    /// Every value of this type is a value of its shape.
    pub proof fn lemma_conforms(&self, level: nat)
        ensures
            conforms(catalog(), level, Self::def_shape(), self.datum()),
            conforms(catalog(), catalog().len(), Self::shape(), self.datum()),
    {
        lemma_catalog();
        self.lemma_conforms_def(DAMAGE_SOURCE as nat);
        lemma_ref(catalog(), DAMAGE_SOURCE as nat, self.datum());
        self.lemma_conforms_def(level);
    }

    /// Every value of the shape of this type is the model of one of its values.
    pub proof fn lemma_fits(d: Datum, level: nat)
        requires
            conforms(catalog(), level, Self::def_shape(), d) || conforms(
                catalog(),
                level,
                Self::shape(),
                d,
            ),
        ensures
            Self::valid(d),
    {
        lemma_catalog();
        if conforms(catalog(), level, Self::def_shape(), d) {
            Self::lemma_fits_def(d, level);
        } else {
            lemma_unref(catalog(), level, DAMAGE_SOURCE as nat, d);
            Self::lemma_fits_def(d, DAMAGE_SOURCE as nat);
        }
    }

    proof fn lemma_conforms_def(&self, level: nat)
        ensures
            conforms(catalog(), level, Self::def_shape(), self.datum()),
    {
        reveal(DamageSource::def_shape);
        let fs0 = Seq::<FieldShape>::empty();
        let vs0 = Seq::<Datum>::empty();
        lemma_no_fields(catalog(), level);
        opt_bool_conforms(self.bypasses_armor, catalog().len());
        lemma_more_fields(
            catalog(),
            level,
            fs0,
            vs0,
            defaulted("bypasses_armor"@, opt_bool_shape(), Datum::Absent, Omit::IfAbsent),
            opt_bool_datum(self.bypasses_armor),
        );
        let fs1 = fs0.push(
            defaulted("bypasses_armor"@, opt_bool_shape(), Datum::Absent, Omit::IfAbsent)
        );
        let vs1 = vs0.push(opt_bool_datum(self.bypasses_armor));
        opt_bool_conforms(self.bypasses_invulnerability, catalog().len());
        lemma_more_fields(
            catalog(),
            level,
            fs1,
            vs1,
            defaulted("bypasses_invulnerability"@, opt_bool_shape(), Datum::Absent, Omit::IfAbsent),
            opt_bool_datum(self.bypasses_invulnerability),
        );
        let fs2 = fs1.push(
            defaulted("bypasses_invulnerability"@, opt_bool_shape(), Datum::Absent, Omit::IfAbsent)
        );
        let vs2 = vs1.push(opt_bool_datum(self.bypasses_invulnerability));
        opt_bool_conforms(self.bypasses_magic, catalog().len());
        lemma_more_fields(
            catalog(),
            level,
            fs2,
            vs2,
            defaulted("bypasses_magic"@, opt_bool_shape(), Datum::Absent, Omit::IfAbsent),
            opt_bool_datum(self.bypasses_magic),
        );
        let fs3 = fs2.push(
            defaulted("bypasses_magic"@, opt_bool_shape(), Datum::Absent, Omit::IfAbsent)
        );
        let vs3 = vs2.push(opt_bool_datum(self.bypasses_magic));
        opt_entity_conforms(self.direct_entity, catalog().len());
        lemma_more_fields(
            catalog(),
            level,
            fs3,
            vs3,
            defaulted("direct_entity"@, opt_entity_shape(), Datum::Absent, Omit::IfAbsent),
            opt_entity_datum(self.direct_entity),
        );
        let fs4 = fs3.push(
            defaulted("direct_entity"@, opt_entity_shape(), Datum::Absent, Omit::IfAbsent)
        );
        let vs4 = vs3.push(opt_entity_datum(self.direct_entity));
        opt_bool_conforms(self.is_explosion, catalog().len());
        lemma_more_fields(
            catalog(),
            level,
            fs4,
            vs4,
            defaulted("is_explosion"@, opt_bool_shape(), Datum::Absent, Omit::IfAbsent),
            opt_bool_datum(self.is_explosion),
        );
        let fs5 = fs4.push(
            defaulted("is_explosion"@, opt_bool_shape(), Datum::Absent, Omit::IfAbsent)
        );
        let vs5 = vs4.push(opt_bool_datum(self.is_explosion));
        opt_bool_conforms(self.is_fire, catalog().len());
        lemma_more_fields(
            catalog(),
            level,
            fs5,
            vs5,
            defaulted("is_fire"@, opt_bool_shape(), Datum::Absent, Omit::IfAbsent),
            opt_bool_datum(self.is_fire),
        );
        let fs6 = fs5.push(defaulted("is_fire"@, opt_bool_shape(), Datum::Absent, Omit::IfAbsent));
        let vs6 = vs5.push(opt_bool_datum(self.is_fire));
        opt_bool_conforms(self.is_magic, catalog().len());
        lemma_more_fields(
            catalog(),
            level,
            fs6,
            vs6,
            defaulted("is_magic"@, opt_bool_shape(), Datum::Absent, Omit::IfAbsent),
            opt_bool_datum(self.is_magic),
        );
        let fs7 = fs6.push(defaulted("is_magic"@, opt_bool_shape(), Datum::Absent, Omit::IfAbsent));
        let vs7 = vs6.push(opt_bool_datum(self.is_magic));
        opt_bool_conforms(self.is_projectile, catalog().len());
        lemma_more_fields(
            catalog(),
            level,
            fs7,
            vs7,
            defaulted("is_projectile"@, opt_bool_shape(), Datum::Absent, Omit::IfAbsent),
            opt_bool_datum(self.is_projectile),
        );
        let fs8 = fs7.push(
            defaulted("is_projectile"@, opt_bool_shape(), Datum::Absent, Omit::IfAbsent)
        );
        let vs8 = vs7.push(opt_bool_datum(self.is_projectile));
        opt_bool_conforms(self.is_lightning, catalog().len());
        lemma_more_fields(
            catalog(),
            level,
            fs8,
            vs8,
            defaulted("is_lightning"@, opt_bool_shape(), Datum::Absent, Omit::IfAbsent),
            opt_bool_datum(self.is_lightning),
        );
        let fs9 = fs8.push(
            defaulted("is_lightning"@, opt_bool_shape(), Datum::Absent, Omit::IfAbsent)
        );
        let vs9 = vs8.push(opt_bool_datum(self.is_lightning));
        opt_entity_conforms(self.source_entity, catalog().len());
        lemma_more_fields(
            catalog(),
            level,
            fs9,
            vs9,
            defaulted("source_entity"@, opt_entity_shape(), Datum::Absent, Omit::IfAbsent),
            opt_entity_datum(self.source_entity),
        );
        let fs10 = fs9.push(
            defaulted("source_entity"@, opt_entity_shape(), Datum::Absent, Omit::IfAbsent)
        );
        let vs10 = vs9.push(opt_entity_datum(self.source_entity));
        lemma_record(catalog(), level, fs10, vs10);
    }

    proof fn lemma_fits_def(d: Datum, level: nat)
        requires
            conforms(catalog(), level, Self::def_shape(), d),
        ensures
            Self::valid(d),
    {
        reveal(DamageSource::def_shape);
        let fields = Self::fields();
        let vs = d->Record_0;
        lemma_field(catalog(), level, fields, d, 0);
        assert(
            fields[0] == defaulted(
                "bypasses_armor"@,
                opt_bool_shape(),
                Datum::Absent,
                Omit::IfAbsent,
            )
        );
        opt_bool_fits(vs[0], catalog().len());
        lemma_field(catalog(), level, fields, d, 1);
        assert(
            fields[1] == defaulted(
                "bypasses_invulnerability"@,
                opt_bool_shape(),
                Datum::Absent,
                Omit::IfAbsent,
            )
        );
        opt_bool_fits(vs[1], catalog().len());
        lemma_field(catalog(), level, fields, d, 2);
        assert(
            fields[2] == defaulted(
                "bypasses_magic"@,
                opt_bool_shape(),
                Datum::Absent,
                Omit::IfAbsent,
            )
        );
        opt_bool_fits(vs[2], catalog().len());
        lemma_field(catalog(), level, fields, d, 3);
        assert(
            fields[3] == defaulted(
                "direct_entity"@,
                opt_entity_shape(),
                Datum::Absent,
                Omit::IfAbsent,
            )
        );
        opt_entity_fits(vs[3], catalog().len());
        lemma_field(catalog(), level, fields, d, 4);
        assert(
            fields[4] == defaulted("is_explosion"@, opt_bool_shape(), Datum::Absent, Omit::IfAbsent)
        );
        opt_bool_fits(vs[4], catalog().len());
        lemma_field(catalog(), level, fields, d, 5);
        assert(fields[5] == defaulted("is_fire"@, opt_bool_shape(), Datum::Absent, Omit::IfAbsent));
        opt_bool_fits(vs[5], catalog().len());
        lemma_field(catalog(), level, fields, d, 6);
        assert(
            fields[6] == defaulted("is_magic"@, opt_bool_shape(), Datum::Absent, Omit::IfAbsent)
        );
        opt_bool_fits(vs[6], catalog().len());
        lemma_field(catalog(), level, fields, d, 7);
        assert(
            fields[7] == defaulted(
                "is_projectile"@,
                opt_bool_shape(),
                Datum::Absent,
                Omit::IfAbsent,
            )
        );
        opt_bool_fits(vs[7], catalog().len());
        lemma_field(catalog(), level, fields, d, 8);
        assert(
            fields[8] == defaulted("is_lightning"@, opt_bool_shape(), Datum::Absent, Omit::IfAbsent)
        );
        opt_bool_fits(vs[8], catalog().len());
        lemma_field(catalog(), level, fields, d, 9);
        assert(
            fields[9] == defaulted(
                "source_entity"@,
                opt_entity_shape(),
                Datum::Absent,
                Omit::IfAbsent,
            )
        );
        opt_entity_fits(vs[9], catalog().len());
    }

    /// Every value of this type can be written and read back as itself.
    pub proof fn lemma_legal(&self, level: nat)
        ensures
            legal(catalog(), level, Self::def_shape(), self.datum()),
            legal(catalog(), catalog().len(), Self::shape(), self.datum()),
            encode_spec(catalog(), level, Self::def_shape(), self.datum()) is Object,
            encode_spec(catalog(), catalog().len(), Self::shape(), self.datum()) is Object,
    {
        lemma_catalog();
        self.lemma_legal_def(DAMAGE_SOURCE as nat);
        lemma_written_by_reference(catalog(), catalog().len(), DAMAGE_SOURCE as nat, self.datum());
        self.lemma_legal_def(level);
    }

    proof fn lemma_legal_def(&self, level: nat)
        ensures
            legal(catalog(), level, Self::def_shape(), self.datum()),
            encode_spec(catalog(), level, Self::def_shape(), self.datum()) is Object,
    {
        reveal(DamageSource::def_shape);
        let fs0 = Seq::<FieldShape>::empty();
        let vs0 = Seq::<Datum>::empty();
        lemma_no_fields_legal(catalog(), level);
        opt_bool_legal(self.bypasses_armor, catalog().len());
        lemma_more_fields_legal(
            catalog(),
            level,
            fs0,
            vs0,
            defaulted("bypasses_armor"@, opt_bool_shape(), Datum::Absent, Omit::IfAbsent),
            opt_bool_datum(self.bypasses_armor),
        );
        let fs1 = fs0.push(
            defaulted("bypasses_armor"@, opt_bool_shape(), Datum::Absent, Omit::IfAbsent)
        );
        let vs1 = vs0.push(opt_bool_datum(self.bypasses_armor));
        opt_bool_legal(self.bypasses_invulnerability, catalog().len());
        lemma_more_fields_legal(
            catalog(),
            level,
            fs1,
            vs1,
            defaulted("bypasses_invulnerability"@, opt_bool_shape(), Datum::Absent, Omit::IfAbsent),
            opt_bool_datum(self.bypasses_invulnerability),
        );
        let fs2 = fs1.push(
            defaulted("bypasses_invulnerability"@, opt_bool_shape(), Datum::Absent, Omit::IfAbsent)
        );
        let vs2 = vs1.push(opt_bool_datum(self.bypasses_invulnerability));
        opt_bool_legal(self.bypasses_magic, catalog().len());
        lemma_more_fields_legal(
            catalog(),
            level,
            fs2,
            vs2,
            defaulted("bypasses_magic"@, opt_bool_shape(), Datum::Absent, Omit::IfAbsent),
            opt_bool_datum(self.bypasses_magic),
        );
        let fs3 = fs2.push(
            defaulted("bypasses_magic"@, opt_bool_shape(), Datum::Absent, Omit::IfAbsent)
        );
        let vs3 = vs2.push(opt_bool_datum(self.bypasses_magic));
        opt_entity_legal(self.direct_entity, catalog().len());
        lemma_more_fields_legal(
            catalog(),
            level,
            fs3,
            vs3,
            defaulted("direct_entity"@, opt_entity_shape(), Datum::Absent, Omit::IfAbsent),
            opt_entity_datum(self.direct_entity),
        );
        let fs4 = fs3.push(
            defaulted("direct_entity"@, opt_entity_shape(), Datum::Absent, Omit::IfAbsent)
        );
        let vs4 = vs3.push(opt_entity_datum(self.direct_entity));
        opt_bool_legal(self.is_explosion, catalog().len());
        lemma_more_fields_legal(
            catalog(),
            level,
            fs4,
            vs4,
            defaulted("is_explosion"@, opt_bool_shape(), Datum::Absent, Omit::IfAbsent),
            opt_bool_datum(self.is_explosion),
        );
        let fs5 = fs4.push(
            defaulted("is_explosion"@, opt_bool_shape(), Datum::Absent, Omit::IfAbsent)
        );
        let vs5 = vs4.push(opt_bool_datum(self.is_explosion));
        opt_bool_legal(self.is_fire, catalog().len());
        lemma_more_fields_legal(
            catalog(),
            level,
            fs5,
            vs5,
            defaulted("is_fire"@, opt_bool_shape(), Datum::Absent, Omit::IfAbsent),
            opt_bool_datum(self.is_fire),
        );
        let fs6 = fs5.push(defaulted("is_fire"@, opt_bool_shape(), Datum::Absent, Omit::IfAbsent));
        let vs6 = vs5.push(opt_bool_datum(self.is_fire));
        opt_bool_legal(self.is_magic, catalog().len());
        lemma_more_fields_legal(
            catalog(),
            level,
            fs6,
            vs6,
            defaulted("is_magic"@, opt_bool_shape(), Datum::Absent, Omit::IfAbsent),
            opt_bool_datum(self.is_magic),
        );
        let fs7 = fs6.push(defaulted("is_magic"@, opt_bool_shape(), Datum::Absent, Omit::IfAbsent));
        let vs7 = vs6.push(opt_bool_datum(self.is_magic));
        opt_bool_legal(self.is_projectile, catalog().len());
        lemma_more_fields_legal(
            catalog(),
            level,
            fs7,
            vs7,
            defaulted("is_projectile"@, opt_bool_shape(), Datum::Absent, Omit::IfAbsent),
            opt_bool_datum(self.is_projectile),
        );
        let fs8 = fs7.push(
            defaulted("is_projectile"@, opt_bool_shape(), Datum::Absent, Omit::IfAbsent)
        );
        let vs8 = vs7.push(opt_bool_datum(self.is_projectile));
        opt_bool_legal(self.is_lightning, catalog().len());
        lemma_more_fields_legal(
            catalog(),
            level,
            fs8,
            vs8,
            defaulted("is_lightning"@, opt_bool_shape(), Datum::Absent, Omit::IfAbsent),
            opt_bool_datum(self.is_lightning),
        );
        let fs9 = fs8.push(
            defaulted("is_lightning"@, opt_bool_shape(), Datum::Absent, Omit::IfAbsent)
        );
        let vs9 = vs8.push(opt_bool_datum(self.is_lightning));
        opt_entity_legal(self.source_entity, catalog().len());
        lemma_more_fields_legal(
            catalog(),
            level,
            fs9,
            vs9,
            defaulted("source_entity"@, opt_entity_shape(), Datum::Absent, Omit::IfAbsent),
            opt_entity_datum(self.source_entity),
        );
        let fs10 = fs9.push(
            defaulted("source_entity"@, opt_entity_shape(), Datum::Absent, Omit::IfAbsent)
        );
        let vs10 = vs9.push(opt_entity_datum(self.source_entity));
        lemma_record_legal(catalog(), level, fs10, vs10);
    }
}

impl DamageSource {
    /// The model of the default value of this type.
    pub open spec fn default_datum() -> Datum {
        Datum::Record(
            Seq::empty()
                .push(Datum::Absent)
                .push(Datum::Absent)
                .push(Datum::Absent)
                .push(Datum::Absent)
                .push(Datum::Absent)
                .push(Datum::Absent)
                .push(Datum::Absent)
                .push(Datum::Absent)
                .push(Datum::Absent)
                .push(Datum::Absent),
        )
    }
}

impl Default for DamageSource {
    fn default() -> (r: DamageSource)
        ensures
            r.datum() == DamageSource::default_datum(),
    {
        let r = DamageSource { bypasses_armor: None, bypasses_invulnerability: None, bypasses_magic: None, direct_entity: None, is_explosion: None, is_fire: None, is_magic: None, is_projectile: None, is_lightning: None, source_entity: None };
        r
    }
}

/// The models of the items of a list.
pub open spec fn enchantment_list_data(v: Seq<Enchantment>) -> Seq<Datum> {
    Seq::new(
        v.len(),
        |i: int|
            if 0 <= i < v.len() {
                v[i].datum()
            } else {
                Datum::Absent
            },
    )
}

/// The model of a list.
pub open spec fn enchantment_list_datum(v: Vec<Enchantment>) -> Datum {
    Datum::List(enchantment_list_data(v@))
}

/// Whether `d` is the model of a list of this type.
pub open spec fn enchantment_list_valid(d: Datum) -> bool {
    d matches Datum::List(items) && forall|i: int| 0 <= i < items.len() ==> Enchantment::valid(
        (#[trigger] items[i])
    )
}

/// The shape of a list of this type.
pub open spec fn enchantment_list_shape() -> Shape {
    Shape::List(Box::new(Enchantment::shape()))
}

/// The node of a list of this type.
pub fn enchantment_list_node() -> (n: Node)
    ensures
        n.shape() == enchantment_list_shape(),
{
    Node::List(Box::new(Enchantment::node()))
}

/// A list in generic form.
pub fn enchantment_list_to(v: &Vec<Enchantment>) -> (x: Instance)
    ensures
        x@ == enchantment_list_datum(*v),
{
    let mut items: Vec<Instance> = Vec::new();
    let mut k: usize = 0;
    while k < v.len()
        invariant
            k <= v.len(),
            items.len() == k,
            forall|i: int| 0 <= i < k ==> (#[trigger] items[i])@ == v[i].datum(),
        decreases v.len() - k,
    {
        items.push(Enchantment::to_instance(&v[k]));
        k += 1;
    }
    assert(data(items@) =~= enchantment_list_data(v@));
    Instance::List(items)
}

/// The items that a run of instances stands for, if each stands for one.
pub fn enchantment_list_from_items(items: &Vec<Instance>) -> (r: Option<Vec<Enchantment>>)
    ensures
        match r {
            Some(v) => enchantment_list_data(v@) == data(items@),
            None => exists|i: int| 0 <= i < items.len() && !(
                Enchantment::valid((#[trigger] data(items@)[i]))
            ),
        },
{
    let mut out: Vec<Enchantment> = Vec::new();
    let mut k: usize = 0;
    while k < items.len()
        invariant
            k <= items.len(),
            out.len() == k,
            forall|i: int| 0 <= i < k ==> out[i].datum() == (#[trigger] items[i])@,
        decreases items.len() - k,
    {
        match Enchantment::from_instance(&items[k]) {
            Some(v) => {
                out.push(v);
            },
            None => {
                assert(!(Enchantment::valid(data(items@)[k as int])));
                return None;
            },
        }
        k += 1;
    }
    assert(enchantment_list_data(out@) =~= data(items@));
    Some(out)
}

/// The list that an instance stands for, if it stands for one.
pub fn enchantment_list_from(x: &Instance) -> (r: Option<Vec<Enchantment>>)
    ensures
        match r {
            Some(v) => enchantment_list_datum(v) == x@,
            None => !enchantment_list_valid(x@),
        },
{
    match x {
        Instance::List(items) => {
            assert(x@->List_0 == data(items@));
            enchantment_list_from_items(items)
        },
        _ => None,
    }
}

/// Every list of this type is a value of its shape.
pub proof fn enchantment_list_conforms(v: Vec<Enchantment>, level: nat)
    ensures
        conforms(catalog(), level, enchantment_list_shape(), enchantment_list_datum(v)),
{
    let items = enchantment_list_data(v@);
    assert forall|i: int| 0 <= i < items.len() implies conforms(
        catalog(),
        catalog().len(),
        Enchantment::shape(),
        #[trigger] items[i],
    ) by {
        v@[i].lemma_conforms(catalog().len());
    }
}

/// Every value of the shape is the model of a list of this type.
pub proof fn enchantment_list_fits(d: Datum, level: nat)
    requires
        conforms(catalog(), level, enchantment_list_shape(), d),
    ensures
        enchantment_list_valid(d),
{
    let items = d->List_0;
    assert forall|i: int| 0 <= i < items.len() implies Enchantment::valid(
        (#[trigger] items[i])
    ) by {
        Enchantment::lemma_fits(items[i], catalog().len());
    }
}

/// Every list of this type can be written and read back as itself.
pub proof fn enchantment_list_legal(v: Vec<Enchantment>, level: nat)
    ensures
        legal(catalog(), level, enchantment_list_shape(), enchantment_list_datum(v)),
        encode_spec(catalog(), level, enchantment_list_shape(), enchantment_list_datum(v)) is Array,
{
    let items = enchantment_list_data(v@);
    assert forall|i: int| 0 <= i < items.len() implies legal(
        catalog(),
        catalog().len(),
        Enchantment::shape(),
        #[trigger] items[i],
    ) by {
        v@[i].lemma_legal(catalog().len());
    }
}

/// The model of an optional value.
pub open spec fn opt_block_datum(v: Option<Box<Block>>) -> Datum {
    match v {
        None => Datum::Absent,
        Some(y) => Datum::Present(Box::new((*y).datum())),
    }
}

/// Whether `d` is the model of an optional value of this type.
pub open spec fn opt_block_valid(d: Datum) -> bool {
    match d {
        Datum::Absent => true,
        Datum::Present(y) => Block::valid(*y),
        _ => false,
    }
}

/// The shape of an optional value of this type.
pub open spec fn opt_block_shape() -> Shape {
    Shape::Optional(Box::new(Block::shape()))
}

/// The node of an optional value of this type.
pub fn opt_block_node() -> (n: Node)
    ensures
        n.shape() == opt_block_shape(),
{
    Node::Optional(Box::new(Block::node()))
}

/// An optional value in generic form.
pub fn opt_block_to(v: &Option<Box<Block>>) -> (x: Instance)
    ensures
        x@ == opt_block_datum(*v),
{
    match v {
        None => Instance::Absent,
        Some(y) => Instance::Present(Box::new(Block::to_instance(&**y))),
    }
}

/// The optional value that an instance stands for, if it stands for one.
pub fn opt_block_from(x: &Instance) -> (r: Option<Option<Box<Block>>>)
    ensures
        match r {
            Some(v) => opt_block_datum(v) == x@,
            None => !opt_block_valid(x@),
        },
{
    match x {
        Instance::Absent => Some(None),
        Instance::Present(y) => match boxed(Block::from_instance(y)) {
            Some(v) => Some(Some(v)),
            None => None,
        },
        _ => None,
    }
}

/// Every optional value of this type is a value of its shape.
pub proof fn opt_block_conforms(v: Option<Box<Block>>, level: nat)
    requires
        level == catalog().len(),
    ensures
        conforms(catalog(), level, opt_block_shape(), opt_block_datum(v)),
{
    match v {
        Some(y) => {
            (*y).lemma_conforms(level);
        },
        None => {},
    }
}

/// Every value of the shape is the model of an optional value of this type.
pub proof fn opt_block_fits(d: Datum, level: nat)
    requires
        conforms(catalog(), level, opt_block_shape(), d),
    ensures
        opt_block_valid(d),
{
    match d {
        Datum::Present(y) => {
            Block::lemma_fits(*y, level);
        },
        _ => {},
    }
}

/// Every optional value of this type can be written and read back as itself.
pub proof fn opt_block_legal(v: Option<Box<Block>>, level: nat)
    requires
        level == catalog().len(),
    ensures
        legal(catalog(), level, opt_block_shape(), opt_block_datum(v)),
        ({
                    let k = kind_of(
                        encode_spec(catalog(), level, opt_block_shape(), opt_block_datum(v))
                    );
                    k == Kind::Null || k == Kind::Object
                }),
{
    match v {
        Some(y) => {
            (*y).lemma_legal(level);
        },
        None => {},
    }
}

/// The model of an optional value.
pub open spec fn opt_fluid_datum(v: Option<Box<Fluid>>) -> Datum {
    match v {
        None => Datum::Absent,
        Some(y) => Datum::Present(Box::new((*y).datum())),
    }
}

/// Whether `d` is the model of an optional value of this type.
pub open spec fn opt_fluid_valid(d: Datum) -> bool {
    match d {
        Datum::Absent => true,
        Datum::Present(y) => Fluid::valid(*y),
        _ => false,
    }
}

/// The shape of an optional value of this type.
pub open spec fn opt_fluid_shape() -> Shape {
    Shape::Optional(Box::new(Fluid::shape()))
}

/// The node of an optional value of this type.
pub fn opt_fluid_node() -> (n: Node)
    ensures
        n.shape() == opt_fluid_shape(),
{
    Node::Optional(Box::new(Fluid::node()))
}

/// An optional value in generic form.
pub fn opt_fluid_to(v: &Option<Box<Fluid>>) -> (x: Instance)
    ensures
        x@ == opt_fluid_datum(*v),
{
    match v {
        None => Instance::Absent,
        Some(y) => Instance::Present(Box::new(Fluid::to_instance(&**y))),
    }
}

/// The optional value that an instance stands for, if it stands for one.
pub fn opt_fluid_from(x: &Instance) -> (r: Option<Option<Box<Fluid>>>)
    ensures
        match r {
            Some(v) => opt_fluid_datum(v) == x@,
            None => !opt_fluid_valid(x@),
        },
{
    match x {
        Instance::Absent => Some(None),
        Instance::Present(y) => match boxed(Fluid::from_instance(y)) {
            Some(v) => Some(Some(v)),
            None => None,
        },
        _ => None,
    }
}

/// Every optional value of this type is a value of its shape.
pub proof fn opt_fluid_conforms(v: Option<Box<Fluid>>, level: nat)
    requires
        level == catalog().len(),
    ensures
        conforms(catalog(), level, opt_fluid_shape(), opt_fluid_datum(v)),
{
    match v {
        Some(y) => {
            (*y).lemma_conforms(level);
        },
        None => {},
    }
}

/// Every value of the shape is the model of an optional value of this type.
pub proof fn opt_fluid_fits(d: Datum, level: nat)
    requires
        conforms(catalog(), level, opt_fluid_shape(), d),
    ensures
        opt_fluid_valid(d),
{
    match d {
        Datum::Present(y) => {
            Fluid::lemma_fits(*y, level);
        },
        _ => {},
    }
}

/// Every optional value of this type can be written and read back as itself.
pub proof fn opt_fluid_legal(v: Option<Box<Fluid>>, level: nat)
    requires
        level == catalog().len(),
    ensures
        legal(catalog(), level, opt_fluid_shape(), opt_fluid_datum(v)),
        ({
                    let k = kind_of(
                        encode_spec(catalog(), level, opt_fluid_shape(), opt_fluid_datum(v))
                    );
                    k == Kind::Null || k == Kind::Object
                }),
{
    match v {
        Some(y) => {
            (*y).lemma_legal(level);
        },
        None => {},
    }
}

/// The model of an optional value.
pub open spec fn opt_item_datum(v: Option<Box<Item>>) -> Datum {
    match v {
        None => Datum::Absent,
        Some(y) => Datum::Present(Box::new((*y).datum())),
    }
}

/// Whether `d` is the model of an optional value of this type.
pub open spec fn opt_item_valid(d: Datum) -> bool {
    match d {
        Datum::Absent => true,
        Datum::Present(y) => Item::valid(*y),
        _ => false,
    }
}

/// The shape of an optional value of this type.
pub open spec fn opt_item_shape() -> Shape {
    Shape::Optional(Box::new(Item::shape()))
}

/// The node of an optional value of this type.
pub fn opt_item_node() -> (n: Node)
    ensures
        n.shape() == opt_item_shape(),
{
    Node::Optional(Box::new(Item::node()))
}

/// An optional value in generic form.
pub fn opt_item_to(v: &Option<Box<Item>>) -> (x: Instance)
    ensures
        x@ == opt_item_datum(*v),
{
    match v {
        None => Instance::Absent,
        Some(y) => Instance::Present(Box::new(Item::to_instance(&**y))),
    }
}

/// The optional value that an instance stands for, if it stands for one.
pub fn opt_item_from(x: &Instance) -> (r: Option<Option<Box<Item>>>)
    ensures
        match r {
            Some(v) => opt_item_datum(v) == x@,
            None => !opt_item_valid(x@),
        },
{
    match x {
        Instance::Absent => Some(None),
        Instance::Present(y) => match boxed(Item::from_instance(y)) {
            Some(v) => Some(Some(v)),
            None => None,
        },
        _ => None,
    }
}

/// Every optional value of this type is a value of its shape.
pub proof fn opt_item_conforms(v: Option<Box<Item>>, level: nat)
    requires
        level == catalog().len(),
    ensures
        conforms(catalog(), level, opt_item_shape(), opt_item_datum(v)),
{
    match v {
        Some(y) => {
            (*y).lemma_conforms(level);
        },
        None => {},
    }
}

/// Every value of the shape is the model of an optional value of this type.
pub proof fn opt_item_fits(d: Datum, level: nat)
    requires
        conforms(catalog(), level, opt_item_shape(), d),
    ensures
        opt_item_valid(d),
{
    match d {
        Datum::Present(y) => {
            Item::lemma_fits(*y, level);
        },
        _ => {},
    }
}

/// Every optional value of this type can be written and read back as itself.
pub proof fn opt_item_legal(v: Option<Box<Item>>, level: nat)
    requires
        level == catalog().len(),
    ensures
        legal(catalog(), level, opt_item_shape(), opt_item_datum(v)),
        ({
                    let k = kind_of(
                        encode_spec(catalog(), level, opt_item_shape(), opt_item_datum(v))
                    );
                    k == Kind::Null || k == Kind::Object
                }),
{
    match v {
        Some(y) => {
            (*y).lemma_legal(level);
        },
        None => {},
    }
}

/// The model of an optional value.
pub open spec fn opt_distance_datum(v: Option<Box<Distance>>) -> Datum {
    match v {
        None => Datum::Absent,
        Some(y) => Datum::Present(Box::new((*y).datum())),
    }
}

/// Whether `d` is the model of an optional value of this type.
pub open spec fn opt_distance_valid(d: Datum) -> bool {
    match d {
        Datum::Absent => true,
        Datum::Present(y) => Distance::valid(*y),
        _ => false,
    }
}

/// The shape of an optional value of this type.
pub open spec fn opt_distance_shape() -> Shape {
    Shape::Optional(Box::new(Distance::shape()))
}

/// The node of an optional value of this type.
pub fn opt_distance_node() -> (n: Node)
    ensures
        n.shape() == opt_distance_shape(),
{
    Node::Optional(Box::new(Distance::node()))
}

/// An optional value in generic form.
pub fn opt_distance_to(v: &Option<Box<Distance>>) -> (x: Instance)
    ensures
        x@ == opt_distance_datum(*v),
{
    match v {
        None => Instance::Absent,
        Some(y) => Instance::Present(Box::new(Distance::to_instance(&**y))),
    }
}

/// The optional value that an instance stands for, if it stands for one.
pub fn opt_distance_from(x: &Instance) -> (r: Option<Option<Box<Distance>>>)
    ensures
        match r {
            Some(v) => opt_distance_datum(v) == x@,
            None => !opt_distance_valid(x@),
        },
{
    match x {
        Instance::Absent => Some(None),
        Instance::Present(y) => match boxed(Distance::from_instance(y)) {
            Some(v) => Some(Some(v)),
            None => None,
        },
        _ => None,
    }
}

/// Every optional value of this type is a value of its shape.
pub proof fn opt_distance_conforms(v: Option<Box<Distance>>, level: nat)
    requires
        level == catalog().len(),
    ensures
        conforms(catalog(), level, opt_distance_shape(), opt_distance_datum(v)),
{
    match v {
        Some(y) => {
            (*y).lemma_conforms(level);
        },
        None => {},
    }
}

/// Every value of the shape is the model of an optional value of this type.
pub proof fn opt_distance_fits(d: Datum, level: nat)
    requires
        conforms(catalog(), level, opt_distance_shape(), d),
    ensures
        opt_distance_valid(d),
{
    match d {
        Datum::Present(y) => {
            Distance::lemma_fits(*y, level);
        },
        _ => {},
    }
}

/// Every optional value of this type can be written and read back as itself.
pub proof fn opt_distance_legal(v: Option<Box<Distance>>, level: nat)
    requires
        level == catalog().len(),
    ensures
        legal(catalog(), level, opt_distance_shape(), opt_distance_datum(v)),
        ({
                    let k = kind_of(
                        encode_spec(catalog(), level, opt_distance_shape(), opt_distance_datum(v))
                    );
                    k == Kind::Null || k == Kind::Object
                }),
{
    match v {
        Some(y) => {
            (*y).lemma_legal(level);
        },
        None => {},
    }
}

/// The models of the entries of a map.
pub open spec fn effect_map_entries(v: Seq<(String, Effect)>) -> Seq<(Seq<char>, Datum)> {
    Seq::new(
        v.len(),
        |i: int|
            if 0 <= i < v.len() {
                (v[i].0@, v[i].1.datum())
            } else {
                (Seq::empty(), Datum::Absent)
            },
    )
}

/// The model of a map.
pub open spec fn effect_map_datum(v: Vec<(String, Effect)>) -> Datum {
    Datum::Dict(effect_map_entries(v@))
}

/// Whether `d` is the model of a map of this type.
pub open spec fn effect_map_valid(d: Datum) -> bool {
    d matches Datum::Dict(entries) && forall|i: int| 0 <= i < entries.len() ==> Effect::valid(
        (#[trigger] entries[i]).1
    )
}

/// The shape of a map of this type.
pub open spec fn effect_map_shape() -> Shape {
    Shape::Dict(Box::new(Effect::shape()))
}

/// The node of a map of this type.
pub fn effect_map_node() -> (n: Node)
    ensures
        n.shape() == effect_map_shape(),
{
    Node::Dict(Box::new(Effect::node()))
}

/// A map in generic form.
pub fn effect_map_to(v: &Vec<(String, Effect)>) -> (x: Instance)
    ensures
        x@ == effect_map_datum(*v),
{
    let mut entries: Vec<(String, Instance)> = Vec::new();
    let mut k: usize = 0;
    while k < v.len()
        invariant
            k <= v.len(),
            entries.len() == k,
            forall|i: int|
                0 <= i < k ==> (#[trigger] entries[i]).0@ == v[i].0@ && entries[i].1@ == v[
                    i
                ].1.datum(),
        decreases v.len() - k,
    {
        entries.push((v[k].0.clone(), Effect::to_instance(&v[k].1)));
        k += 1;
    }
    assert(named_data(entries@) =~= effect_map_entries(v@));
    Instance::Dict(entries)
}

/// The entries that a run of named instances stands for, if each stands for one.
pub fn effect_map_from_entries(entries: &Vec<(String, Instance)>) -> (
    r: Option<Vec<(String, Effect)>>
)
    ensures
        match r {
            Some(v) => effect_map_entries(v@) == named_data(entries@),
            None => exists|i: int| 0 <= i < entries.len() && !(
                Effect::valid((#[trigger] named_data(entries@)[i]).1)
            ),
        },
{
    let mut out: Vec<(String, Effect)> = Vec::new();
    let mut k: usize = 0;
    while k < entries.len()
        invariant
            k <= entries.len(),
            out.len() == k,
            forall|i: int|
                0 <= i < k ==> (#[trigger] out[i]).0@ == entries[i].0@ && out[i].1.datum() == entries[
                    i
                ].1@,
        decreases entries.len() - k,
    {
        match Effect::from_instance(&entries[k].1) {
            Some(v) => {
                out.push((entries[k].0.clone(), v));
            },
            None => {
                assert(!(Effect::valid(named_data(entries@)[k as int].1)));
                return None;
            },
        }
        k += 1;
    }
    assert(effect_map_entries(out@) =~= named_data(entries@));
    Some(out)
}

/// The map that an instance stands for, if it stands for one.
pub fn effect_map_from(x: &Instance) -> (r: Option<Vec<(String, Effect)>>)
    ensures
        match r {
            Some(v) => effect_map_datum(v) == x@,
            None => !effect_map_valid(x@),
        },
{
    match x {
        Instance::Dict(entries) => {
            assert(x@->Dict_0 == named_data(entries@));
            effect_map_from_entries(entries)
        },
        _ => None,
    }
}

/// Every map of this type is a value of its shape.
pub proof fn effect_map_conforms(v: Vec<(String, Effect)>, level: nat)
    ensures
        conforms(catalog(), level, effect_map_shape(), effect_map_datum(v)),
{
    let entries = effect_map_entries(v@);
    assert forall|i: int| 0 <= i < entries.len() implies conforms(
        catalog(),
        catalog().len(),
        Effect::shape(),
        (#[trigger] entries[i]).1,
    ) by {
        v@[i].1.lemma_conforms(catalog().len());
    }
}

/// Every value of the shape is the model of a map of this type.
pub proof fn effect_map_fits(d: Datum, level: nat)
    requires
        conforms(catalog(), level, effect_map_shape(), d),
    ensures
        effect_map_valid(d),
{
    let entries = d->Dict_0;
    assert forall|i: int| 0 <= i < entries.len() implies Effect::valid(
        (#[trigger] entries[i]).1
    ) by {
        Effect::lemma_fits(entries[i].1, catalog().len());
    }
}

/// Every map of this type can be written and read back as itself.
pub proof fn effect_map_legal(v: Vec<(String, Effect)>, level: nat)
    ensures
        legal(catalog(), level, effect_map_shape(), effect_map_datum(v)),
        encode_spec(catalog(), level, effect_map_shape(), effect_map_datum(v)) is Object,
{
    let entries = effect_map_entries(v@);
    assert forall|i: int| 0 <= i < entries.len() implies legal(
        catalog(),
        catalog().len(),
        Effect::shape(),
        (#[trigger] entries[i]).1,
    ) by {
        v@[i].1.lemma_legal(catalog().len());
    }
}

/// The model of an optional value.
pub open spec fn opt_equipment_datum(v: Option<Equipment>) -> Datum {
    match v {
        None => Datum::Absent,
        Some(y) => Datum::Present(Box::new(y.datum())),
    }
}

/// Whether `d` is the model of an optional value of this type.
pub open spec fn opt_equipment_valid(d: Datum) -> bool {
    match d {
        Datum::Absent => true,
        Datum::Present(y) => Equipment::valid(*y),
        _ => false,
    }
}

/// The shape of an optional value of this type.
pub open spec fn opt_equipment_shape() -> Shape {
    Shape::Optional(Box::new(Equipment::shape()))
}

/// The node of an optional value of this type.
pub fn opt_equipment_node() -> (n: Node)
    ensures
        n.shape() == opt_equipment_shape(),
{
    Node::Optional(Box::new(Equipment::node()))
}

/// An optional value in generic form.
pub fn opt_equipment_to(v: &Option<Equipment>) -> (x: Instance)
    ensures
        x@ == opt_equipment_datum(*v),
{
    match v {
        None => Instance::Absent,
        Some(y) => Instance::Present(Box::new(Equipment::to_instance(y))),
    }
}

/// The optional value that an instance stands for, if it stands for one.
pub fn opt_equipment_from(x: &Instance) -> (r: Option<Option<Equipment>>)
    ensures
        match r {
            Some(v) => opt_equipment_datum(v) == x@,
            None => !opt_equipment_valid(x@),
        },
{
    match x {
        Instance::Absent => Some(None),
        Instance::Present(y) => match Equipment::from_instance(y) {
            Some(v) => Some(Some(v)),
            None => None,
        },
        _ => None,
    }
}

/// Every optional value of this type is a value of its shape.
pub proof fn opt_equipment_conforms(v: Option<Equipment>, level: nat)
    requires
        level == catalog().len(),
    ensures
        conforms(catalog(), level, opt_equipment_shape(), opt_equipment_datum(v)),
{
    match v {
        Some(y) => {
            y.lemma_conforms(level);
        },
        None => {},
    }
}

/// Every value of the shape is the model of an optional value of this type.
pub proof fn opt_equipment_fits(d: Datum, level: nat)
    requires
        conforms(catalog(), level, opt_equipment_shape(), d),
    ensures
        opt_equipment_valid(d),
{
    match d {
        Datum::Present(y) => {
            Equipment::lemma_fits(*y, level);
        },
        _ => {},
    }
}

/// Every optional value of this type can be written and read back as itself.
pub proof fn opt_equipment_legal(v: Option<Equipment>, level: nat)
    requires
        level == catalog().len(),
    ensures
        legal(catalog(), level, opt_equipment_shape(), opt_equipment_datum(v)),
        ({
                    let k = kind_of(
                        encode_spec(catalog(), level, opt_equipment_shape(), opt_equipment_datum(v))
                    );
                    k == Kind::Null || k == Kind::Object
                }),
{
    match v {
        Some(y) => {
            y.lemma_legal(level);
        },
        None => {},
    }
}

/// The model of an optional value.
pub open spec fn opt_entity_flags_datum(v: Option<EntityFlags>) -> Datum {
    match v {
        None => Datum::Absent,
        Some(y) => Datum::Present(Box::new(y.datum())),
    }
}

/// Whether `d` is the model of an optional value of this type.
pub open spec fn opt_entity_flags_valid(d: Datum) -> bool {
    match d {
        Datum::Absent => true,
        Datum::Present(y) => EntityFlags::valid(*y),
        _ => false,
    }
}

/// The shape of an optional value of this type.
pub open spec fn opt_entity_flags_shape() -> Shape {
    Shape::Optional(Box::new(EntityFlags::shape()))
}

/// The node of an optional value of this type.
pub fn opt_entity_flags_node() -> (n: Node)
    ensures
        n.shape() == opt_entity_flags_shape(),
{
    Node::Optional(Box::new(EntityFlags::node()))
}

/// An optional value in generic form.
pub fn opt_entity_flags_to(v: &Option<EntityFlags>) -> (x: Instance)
    ensures
        x@ == opt_entity_flags_datum(*v),
{
    match v {
        None => Instance::Absent,
        Some(y) => Instance::Present(Box::new(EntityFlags::to_instance(y))),
    }
}

/// The optional value that an instance stands for, if it stands for one.
pub fn opt_entity_flags_from(x: &Instance) -> (r: Option<Option<EntityFlags>>)
    ensures
        match r {
            Some(v) => opt_entity_flags_datum(v) == x@,
            None => !opt_entity_flags_valid(x@),
        },
{
    match x {
        Instance::Absent => Some(None),
        Instance::Present(y) => match EntityFlags::from_instance(y) {
            Some(v) => Some(Some(v)),
            None => None,
        },
        _ => None,
    }
}

/// Every optional value of this type is a value of its shape.
pub proof fn opt_entity_flags_conforms(v: Option<EntityFlags>, level: nat)
    requires
        level == catalog().len(),
    ensures
        conforms(catalog(), level, opt_entity_flags_shape(), opt_entity_flags_datum(v)),
{
    match v {
        Some(y) => {
            y.lemma_conforms(level);
        },
        None => {},
    }
}

/// Every value of the shape is the model of an optional value of this type.
pub proof fn opt_entity_flags_fits(d: Datum, level: nat)
    requires
        conforms(catalog(), level, opt_entity_flags_shape(), d),
    ensures
        opt_entity_flags_valid(d),
{
    match d {
        Datum::Present(y) => {
            EntityFlags::lemma_fits(*y, level);
        },
        _ => {},
    }
}

/// Every optional value of this type can be written and read back as itself.
pub proof fn opt_entity_flags_legal(v: Option<EntityFlags>, level: nat)
    requires
        level == catalog().len(),
    ensures
        legal(catalog(), level, opt_entity_flags_shape(), opt_entity_flags_datum(v)),
        ({
                    let k = kind_of(
                        encode_spec(
                            catalog(),
                            level,
                            opt_entity_flags_shape(),
                            opt_entity_flags_datum(v),
                        )
                    );
                    k == Kind::Null || k == Kind::Object
                }),
{
    match v {
        Some(y) => {
            y.lemma_legal(level);
        },
        None => {},
    }
}

/// The model of an optional value.
pub open spec fn opt_lightning_bolt_datum(v: Option<Box<LightningBolt>>) -> Datum
    decreases v,
{
    match v {
        None => Datum::Absent,
        Some(y) => Datum::Present(Box::new((*y).datum())),
    }
}

/// Whether `d` is the model of an optional value of this type.
pub open spec fn opt_lightning_bolt_valid(d: Datum) -> bool
    decreases d,
{
    match d {
        Datum::Absent => true,
        Datum::Present(y) => LightningBolt::valid(*y),
        _ => false,
    }
}

/// The shape of an optional value of this type.
pub open spec fn opt_lightning_bolt_shape() -> Shape {
    Shape::Optional(Box::new(LightningBolt::shape()))
}

/// The node of an optional value of this type.
pub fn opt_lightning_bolt_node() -> (n: Node)
    ensures
        n.shape() == opt_lightning_bolt_shape(),
{
    Node::Optional(Box::new(LightningBolt::node()))
}

/// An optional value in generic form.
pub fn opt_lightning_bolt_to(v: &Option<Box<LightningBolt>>) -> (x: Instance)
    ensures
        x@ == opt_lightning_bolt_datum(*v),
            decreases v,
{
    match v {
        None => Instance::Absent,
        Some(y) => Instance::Present(Box::new(LightningBolt::to_instance(&**y))),
    }
}

/// The optional value that an instance stands for, if it stands for one.
pub fn opt_lightning_bolt_from(x: &Instance) -> (r: Option<Option<Box<LightningBolt>>>)
    ensures
        match r {
            Some(v) => opt_lightning_bolt_datum(v) == x@,
            None => !opt_lightning_bolt_valid(x@),
        },
            decreases x,
{
    match x {
        Instance::Absent => Some(None),
        Instance::Present(y) => match boxed(LightningBolt::from_instance(y)) {
            Some(v) => Some(Some(v)),
            None => None,
        },
        _ => None,
    }
}

/// Every optional value of this type is a value of its shape.
pub proof fn opt_lightning_bolt_conforms(v: Option<Box<LightningBolt>>, level: nat)
    requires
        level == catalog().len(),
    ensures
        conforms(catalog(), level, opt_lightning_bolt_shape(), opt_lightning_bolt_datum(v)),
            decreases v, 0nat,
{
    match v {
        Some(y) => {
            (*y).lemma_conforms(level);
        },
        None => {},
    }
}

/// Every value of the shape is the model of an optional value of this type.
pub proof fn opt_lightning_bolt_fits(d: Datum, level: nat)
    requires
        conforms(catalog(), level, opt_lightning_bolt_shape(), d),
    ensures
        opt_lightning_bolt_valid(d),
            decreases d, 0nat,
{
    match d {
        Datum::Present(y) => {
            LightningBolt::lemma_fits(*y, level);
        },
        _ => {},
    }
}

/// Every optional value of this type can be written and read back as itself.
pub proof fn opt_lightning_bolt_legal(v: Option<Box<LightningBolt>>, level: nat)
    requires
        level == catalog().len(),
    ensures
        legal(catalog(), level, opt_lightning_bolt_shape(), opt_lightning_bolt_datum(v)),
        ({
                    let k = kind_of(
                        encode_spec(
                            catalog(),
                            level,
                            opt_lightning_bolt_shape(),
                            opt_lightning_bolt_datum(v),
                        )
                    );
                    k == Kind::Null || k == Kind::Object
                }),
            decreases v, 0nat,
{
    match v {
        Some(y) => {
            (*y).lemma_legal(level);
        },
        None => {},
    }
}

/// The model of an optional value.
pub open spec fn opt_location_datum(v: Option<Box<Location>>) -> Datum {
    match v {
        None => Datum::Absent,
        Some(y) => Datum::Present(Box::new((*y).datum())),
    }
}

/// Whether `d` is the model of an optional value of this type.
pub open spec fn opt_location_valid(d: Datum) -> bool {
    match d {
        Datum::Absent => true,
        Datum::Present(y) => Location::valid(*y),
        _ => false,
    }
}

/// The shape of an optional value of this type.
pub open spec fn opt_location_shape() -> Shape {
    Shape::Optional(Box::new(Location::shape()))
}

/// The node of an optional value of this type.
pub fn opt_location_node() -> (n: Node)
    ensures
        n.shape() == opt_location_shape(),
{
    Node::Optional(Box::new(Location::node()))
}

/// An optional value in generic form.
pub fn opt_location_to(v: &Option<Box<Location>>) -> (x: Instance)
    ensures
        x@ == opt_location_datum(*v),
{
    match v {
        None => Instance::Absent,
        Some(y) => Instance::Present(Box::new(Location::to_instance(&**y))),
    }
}

/// The optional value that an instance stands for, if it stands for one.
pub fn opt_location_from(x: &Instance) -> (r: Option<Option<Box<Location>>>)
    ensures
        match r {
            Some(v) => opt_location_datum(v) == x@,
            None => !opt_location_valid(x@),
        },
{
    match x {
        Instance::Absent => Some(None),
        Instance::Present(y) => match boxed(Location::from_instance(y)) {
            Some(v) => Some(Some(v)),
            None => None,
        },
        _ => None,
    }
}

/// Every optional value of this type is a value of its shape.
pub proof fn opt_location_conforms(v: Option<Box<Location>>, level: nat)
    requires
        level == catalog().len(),
    ensures
        conforms(catalog(), level, opt_location_shape(), opt_location_datum(v)),
{
    match v {
        Some(y) => {
            (*y).lemma_conforms(level);
        },
        None => {},
    }
}

/// Every value of the shape is the model of an optional value of this type.
pub proof fn opt_location_fits(d: Datum, level: nat)
    requires
        conforms(catalog(), level, opt_location_shape(), d),
    ensures
        opt_location_valid(d),
{
    match d {
        Datum::Present(y) => {
            Location::lemma_fits(*y, level);
        },
        _ => {},
    }
}

/// Every optional value of this type can be written and read back as itself.
pub proof fn opt_location_legal(v: Option<Box<Location>>, level: nat)
    requires
        level == catalog().len(),
    ensures
        legal(catalog(), level, opt_location_shape(), opt_location_datum(v)),
        ({
                    let k = kind_of(
                        encode_spec(catalog(), level, opt_location_shape(), opt_location_datum(v))
                    );
                    k == Kind::Null || k == Kind::Object
                }),
{
    match v {
        Some(y) => {
            (*y).lemma_legal(level);
        },
        None => {},
    }
}

/// The model of an optional value.
pub open spec fn opt_entity_datum(v: Option<Box<Entity>>) -> Datum
    decreases v,
{
    match v {
        None => Datum::Absent,
        Some(y) => Datum::Present(Box::new((*y).datum())),
    }
}

/// Whether `d` is the model of an optional value of this type.
pub open spec fn opt_entity_valid(d: Datum) -> bool
    decreases d,
{
    match d {
        Datum::Absent => true,
        Datum::Present(y) => Entity::valid(*y),
        _ => false,
    }
}

/// The shape of an optional value of this type.
pub open spec fn opt_entity_shape() -> Shape {
    Shape::Optional(Box::new(Entity::shape()))
}

/// The node of an optional value of this type.
pub fn opt_entity_node() -> (n: Node)
    ensures
        n.shape() == opt_entity_shape(),
{
    Node::Optional(Box::new(Entity::node()))
}

/// An optional value in generic form.
pub fn opt_entity_to(v: &Option<Box<Entity>>) -> (x: Instance)
    ensures
        x@ == opt_entity_datum(*v),
            decreases v,
{
    match v {
        None => Instance::Absent,
        Some(y) => Instance::Present(Box::new(Entity::to_instance(&**y))),
    }
}

/// The optional value that an instance stands for, if it stands for one.
pub fn opt_entity_from(x: &Instance) -> (r: Option<Option<Box<Entity>>>)
    ensures
        match r {
            Some(v) => opt_entity_datum(v) == x@,
            None => !opt_entity_valid(x@),
        },
            decreases x,
{
    match x {
        Instance::Absent => Some(None),
        Instance::Present(y) => match boxed(Entity::from_instance(y)) {
            Some(v) => Some(Some(v)),
            None => None,
        },
        _ => None,
    }
}

/// Every optional value of this type is a value of its shape.
pub proof fn opt_entity_conforms(v: Option<Box<Entity>>, level: nat)
    requires
        level == catalog().len(),
    ensures
        conforms(catalog(), level, opt_entity_shape(), opt_entity_datum(v)),
            decreases v, 0nat,
{
    match v {
        Some(y) => {
            (*y).lemma_conforms(level);
        },
        None => {},
    }
}

/// Every value of the shape is the model of an optional value of this type.
pub proof fn opt_entity_fits(d: Datum, level: nat)
    requires
        conforms(catalog(), level, opt_entity_shape(), d),
    ensures
        opt_entity_valid(d),
            decreases d, 0nat,
{
    match d {
        Datum::Present(y) => {
            Entity::lemma_fits(*y, level);
        },
        _ => {},
    }
}

/// Every optional value of this type can be written and read back as itself.
pub proof fn opt_entity_legal(v: Option<Box<Entity>>, level: nat)
    requires
        level == catalog().len(),
    ensures
        legal(catalog(), level, opt_entity_shape(), opt_entity_datum(v)),
        ({
                    let k = kind_of(
                        encode_spec(catalog(), level, opt_entity_shape(), opt_entity_datum(v))
                    );
                    k == Kind::Null || k == Kind::Object
                }),
            decreases v, 0nat,
{
    match v {
        Some(y) => {
            (*y).lemma_legal(level);
        },
        None => {},
    }
}

/// The model of an optional value.
pub open spec fn opt_player_datum(v: Option<Box<Player>>) -> Datum
    decreases v,
{
    match v {
        None => Datum::Absent,
        Some(y) => Datum::Present(Box::new((*y).datum())),
    }
}

/// Whether `d` is the model of an optional value of this type.
pub open spec fn opt_player_valid(d: Datum) -> bool
    decreases d,
{
    match d {
        Datum::Absent => true,
        Datum::Present(y) => Player::valid(*y),
        _ => false,
    }
}

/// The shape of an optional value of this type.
pub open spec fn opt_player_shape() -> Shape {
    Shape::Optional(Box::new(Player::shape()))
}

/// The node of an optional value of this type.
pub fn opt_player_node() -> (n: Node)
    ensures
        n.shape() == opt_player_shape(),
{
    Node::Optional(Box::new(Player::node()))
}

/// An optional value in generic form.
pub fn opt_player_to(v: &Option<Box<Player>>) -> (x: Instance)
    ensures
        x@ == opt_player_datum(*v),
            decreases v,
{
    match v {
        None => Instance::Absent,
        Some(y) => Instance::Present(Box::new(Player::to_instance(&**y))),
    }
}

/// The optional value that an instance stands for, if it stands for one.
pub fn opt_player_from(x: &Instance) -> (r: Option<Option<Box<Player>>>)
    ensures
        match r {
            Some(v) => opt_player_datum(v) == x@,
            None => !opt_player_valid(x@),
        },
            decreases x,
{
    match x {
        Instance::Absent => Some(None),
        Instance::Present(y) => match boxed(Player::from_instance(y)) {
            Some(v) => Some(Some(v)),
            None => None,
        },
        _ => None,
    }
}

/// Every optional value of this type is a value of its shape.
pub proof fn opt_player_conforms(v: Option<Box<Player>>, level: nat)
    requires
        level == catalog().len(),
    ensures
        conforms(catalog(), level, opt_player_shape(), opt_player_datum(v)),
            decreases v, 0nat,
{
    match v {
        Some(y) => {
            (*y).lemma_conforms(level);
        },
        None => {},
    }
}

/// Every value of the shape is the model of an optional value of this type.
pub proof fn opt_player_fits(d: Datum, level: nat)
    requires
        conforms(catalog(), level, opt_player_shape(), d),
    ensures
        opt_player_valid(d),
            decreases d, 0nat,
{
    match d {
        Datum::Present(y) => {
            Player::lemma_fits(*y, level);
        },
        _ => {},
    }
}

/// Every optional value of this type can be written and read back as itself.
pub proof fn opt_player_legal(v: Option<Box<Player>>, level: nat)
    requires
        level == catalog().len(),
    ensures
        legal(catalog(), level, opt_player_shape(), opt_player_datum(v)),
        ({
                    let k = kind_of(
                        encode_spec(catalog(), level, opt_player_shape(), opt_player_datum(v))
                    );
                    k == Kind::Null || k == Kind::Object
                }),
            decreases v, 0nat,
{
    match v {
        Some(y) => {
            (*y).lemma_legal(level);
        },
        None => {},
    }
}

/// The models of the entries of a map.
pub open spec fn advancement_status_map_entries(v: Seq<(String, AdvancementStatus)>) -> Seq<(
    Seq<char>,
    Datum,
)> {
    Seq::new(
        v.len(),
        |i: int|
            if 0 <= i < v.len() {
                (v[i].0@, v[i].1.datum())
            } else {
                (Seq::empty(), Datum::Absent)
            },
    )
}

/// The model of a map.
pub open spec fn advancement_status_map_datum(v: Vec<(String, AdvancementStatus)>) -> Datum {
    Datum::Dict(advancement_status_map_entries(v@))
}

/// Whether `d` is the model of a map of this type.
pub open spec fn advancement_status_map_valid(d: Datum) -> bool {
    d matches Datum::Dict(entries) && forall|i: int| 0 <= i < entries.len() ==> AdvancementStatus::valid(
        (#[trigger] entries[i]).1
    )
}

/// The shape of a map of this type.
pub open spec fn advancement_status_map_shape() -> Shape {
    Shape::Dict(Box::new(AdvancementStatus::shape()))
}

/// The node of a map of this type.
pub fn advancement_status_map_node() -> (n: Node)
    ensures
        n.shape() == advancement_status_map_shape(),
{
    Node::Dict(Box::new(AdvancementStatus::node()))
}

/// A map in generic form.
pub fn advancement_status_map_to(v: &Vec<(String, AdvancementStatus)>) -> (x: Instance)
    ensures
        x@ == advancement_status_map_datum(*v),
{
    let mut entries: Vec<(String, Instance)> = Vec::new();
    let mut k: usize = 0;
    while k < v.len()
        invariant
            k <= v.len(),
            entries.len() == k,
            forall|i: int|
                0 <= i < k ==> (#[trigger] entries[i]).0@ == v[i].0@ && entries[i].1@ == v[
                    i
                ].1.datum(),
        decreases v.len() - k,
    {
        entries.push((v[k].0.clone(), AdvancementStatus::to_instance(&v[k].1)));
        k += 1;
    }
    assert(named_data(entries@) =~= advancement_status_map_entries(v@));
    Instance::Dict(entries)
}

/// The entries that a run of named instances stands for, if each stands for one.
pub fn advancement_status_map_from_entries(entries: &Vec<(String, Instance)>) -> (
    r: Option<Vec<(String, AdvancementStatus)>>
)
    ensures
        match r {
            Some(v) => advancement_status_map_entries(v@) == named_data(entries@),
            None => exists|i: int| 0 <= i < entries.len() && !(
                AdvancementStatus::valid((#[trigger] named_data(entries@)[i]).1)
            ),
        },
{
    let mut out: Vec<(String, AdvancementStatus)> = Vec::new();
    let mut k: usize = 0;
    while k < entries.len()
        invariant
            k <= entries.len(),
            out.len() == k,
            forall|i: int|
                0 <= i < k ==> (#[trigger] out[i]).0@ == entries[i].0@ && out[i].1.datum() == entries[
                    i
                ].1@,
        decreases entries.len() - k,
    {
        match AdvancementStatus::from_instance(&entries[k].1) {
            Some(v) => {
                out.push((entries[k].0.clone(), v));
            },
            None => {
                assert(!(AdvancementStatus::valid(named_data(entries@)[k as int].1)));
                return None;
            },
        }
        k += 1;
    }
    assert(advancement_status_map_entries(out@) =~= named_data(entries@));
    Some(out)
}

/// The map that an instance stands for, if it stands for one.
pub fn advancement_status_map_from(x: &Instance) -> (r: Option<Vec<(String, AdvancementStatus)>>)
    ensures
        match r {
            Some(v) => advancement_status_map_datum(v) == x@,
            None => !advancement_status_map_valid(x@),
        },
{
    match x {
        Instance::Dict(entries) => {
            assert(x@->Dict_0 == named_data(entries@));
            advancement_status_map_from_entries(entries)
        },
        _ => None,
    }
}

/// Every map of this type is a value of its shape.
pub proof fn advancement_status_map_conforms(v: Vec<(String, AdvancementStatus)>, level: nat)
    ensures
        conforms(catalog(), level, advancement_status_map_shape(), advancement_status_map_datum(v)),
{
    let entries = advancement_status_map_entries(v@);
    assert forall|i: int| 0 <= i < entries.len() implies conforms(
        catalog(),
        catalog().len(),
        AdvancementStatus::shape(),
        (#[trigger] entries[i]).1,
    ) by {
        v@[i].1.lemma_conforms(catalog().len());
    }
}

/// Every value of the shape is the model of a map of this type.
pub proof fn advancement_status_map_fits(d: Datum, level: nat)
    requires
        conforms(catalog(), level, advancement_status_map_shape(), d),
    ensures
        advancement_status_map_valid(d),
{
    let entries = d->Dict_0;
    assert forall|i: int| 0 <= i < entries.len() implies AdvancementStatus::valid(
        (#[trigger] entries[i]).1
    ) by {
        AdvancementStatus::lemma_fits(entries[i].1, catalog().len());
    }
}

/// Every map of this type can be written and read back as itself.
pub proof fn advancement_status_map_legal(v: Vec<(String, AdvancementStatus)>, level: nat)
    ensures
        legal(catalog(), level, advancement_status_map_shape(), advancement_status_map_datum(v)),
        encode_spec(
            catalog(),
            level,
            advancement_status_map_shape(),
            advancement_status_map_datum(v),
        ) is Object,
{
    let entries = advancement_status_map_entries(v@);
    assert forall|i: int| 0 <= i < entries.len() implies legal(
        catalog(),
        catalog().len(),
        AdvancementStatus::shape(),
        (#[trigger] entries[i]).1,
    ) by {
        v@[i].1.lemma_legal(catalog().len());
    }
}

/// The model of an optional value.
pub open spec fn opt_game_mode_datum(v: Option<GameMode>) -> Datum {
    match v {
        None => Datum::Absent,
        Some(y) => Datum::Present(Box::new(y.datum())),
    }
}

/// Whether `d` is the model of an optional value of this type.
pub open spec fn opt_game_mode_valid(d: Datum) -> bool {
    match d {
        Datum::Absent => true,
        Datum::Present(y) => GameMode::valid(*y),
        _ => false,
    }
}

/// The shape of an optional value of this type.
pub open spec fn opt_game_mode_shape() -> Shape {
    Shape::Optional(Box::new(GameMode::shape()))
}

/// The node of an optional value of this type.
pub fn opt_game_mode_node() -> (n: Node)
    ensures
        n.shape() == opt_game_mode_shape(),
{
    Node::Optional(Box::new(GameMode::node()))
}

/// An optional value in generic form.
pub fn opt_game_mode_to(v: &Option<GameMode>) -> (x: Instance)
    ensures
        x@ == opt_game_mode_datum(*v),
{
    match v {
        None => Instance::Absent,
        Some(y) => Instance::Present(Box::new(GameMode::to_instance(y))),
    }
}

/// The optional value that an instance stands for, if it stands for one.
pub fn opt_game_mode_from(x: &Instance) -> (r: Option<Option<GameMode>>)
    ensures
        match r {
            Some(v) => opt_game_mode_datum(v) == x@,
            None => !opt_game_mode_valid(x@),
        },
{
    match x {
        Instance::Absent => Some(None),
        Instance::Present(y) => match GameMode::from_instance(y) {
            Some(v) => Some(Some(v)),
            None => None,
        },
        _ => None,
    }
}

/// Every optional value of this type is a value of its shape.
pub proof fn opt_game_mode_conforms(v: Option<GameMode>, level: nat)
    requires
        level == catalog().len(),
    ensures
        conforms(catalog(), level, opt_game_mode_shape(), opt_game_mode_datum(v)),
{
    match v {
        Some(y) => {
            y.lemma_conforms(level);
        },
        None => {},
    }
}

/// Every value of the shape is the model of an optional value of this type.
pub proof fn opt_game_mode_fits(d: Datum, level: nat)
    requires
        conforms(catalog(), level, opt_game_mode_shape(), d),
    ensures
        opt_game_mode_valid(d),
{
    match d {
        Datum::Present(y) => {
            GameMode::lemma_fits(*y, level);
        },
        _ => {},
    }
}

/// Every optional value of this type can be written and read back as itself.
pub proof fn opt_game_mode_legal(v: Option<GameMode>, level: nat)
    requires
        level == catalog().len(),
    ensures
        legal(catalog(), level, opt_game_mode_shape(), opt_game_mode_datum(v)),
        ({
                    let k = kind_of(
                        encode_spec(catalog(), level, opt_game_mode_shape(), opt_game_mode_datum(v))
                    );
                    k == Kind::Null || k == Kind::String
                }),
{
    match v {
        Some(y) => {
            y.lemma_legal(level);
        },
        None => {},
    }
}

/// The models of the items of a list.
pub open spec fn statistic_list_data(v: Seq<Statistic>) -> Seq<Datum> {
    Seq::new(
        v.len(),
        |i: int|
            if 0 <= i < v.len() {
                v[i].datum()
            } else {
                Datum::Absent
            },
    )
}

/// The model of a list.
pub open spec fn statistic_list_datum(v: Vec<Statistic>) -> Datum {
    Datum::List(statistic_list_data(v@))
}

/// Whether `d` is the model of a list of this type.
pub open spec fn statistic_list_valid(d: Datum) -> bool {
    d matches Datum::List(items) && forall|i: int| 0 <= i < items.len() ==> Statistic::valid(
        (#[trigger] items[i])
    )
}

/// The shape of a list of this type.
pub open spec fn statistic_list_shape() -> Shape {
    Shape::List(Box::new(Statistic::shape()))
}

/// The node of a list of this type.
pub fn statistic_list_node() -> (n: Node)
    ensures
        n.shape() == statistic_list_shape(),
{
    Node::List(Box::new(Statistic::node()))
}

/// A list in generic form.
pub fn statistic_list_to(v: &Vec<Statistic>) -> (x: Instance)
    ensures
        x@ == statistic_list_datum(*v),
{
    let mut items: Vec<Instance> = Vec::new();
    let mut k: usize = 0;
    while k < v.len()
        invariant
            k <= v.len(),
            items.len() == k,
            forall|i: int| 0 <= i < k ==> (#[trigger] items[i])@ == v[i].datum(),
        decreases v.len() - k,
    {
        items.push(Statistic::to_instance(&v[k]));
        k += 1;
    }
    assert(data(items@) =~= statistic_list_data(v@));
    Instance::List(items)
}

/// The items that a run of instances stands for, if each stands for one.
pub fn statistic_list_from_items(items: &Vec<Instance>) -> (r: Option<Vec<Statistic>>)
    ensures
        match r {
            Some(v) => statistic_list_data(v@) == data(items@),
            None => exists|i: int| 0 <= i < items.len() && !(
                Statistic::valid((#[trigger] data(items@)[i]))
            ),
        },
{
    let mut out: Vec<Statistic> = Vec::new();
    let mut k: usize = 0;
    while k < items.len()
        invariant
            k <= items.len(),
            out.len() == k,
            forall|i: int| 0 <= i < k ==> out[i].datum() == (#[trigger] items[i])@,
        decreases items.len() - k,
    {
        match Statistic::from_instance(&items[k]) {
            Some(v) => {
                out.push(v);
            },
            None => {
                assert(!(Statistic::valid(data(items@)[k as int])));
                return None;
            },
        }
        k += 1;
    }
    assert(statistic_list_data(out@) =~= data(items@));
    Some(out)
}

/// The list that an instance stands for, if it stands for one.
pub fn statistic_list_from(x: &Instance) -> (r: Option<Vec<Statistic>>)
    ensures
        match r {
            Some(v) => statistic_list_datum(v) == x@,
            None => !statistic_list_valid(x@),
        },
{
    match x {
        Instance::List(items) => {
            assert(x@->List_0 == data(items@));
            statistic_list_from_items(items)
        },
        _ => None,
    }
}

/// Every list of this type is a value of its shape.
pub proof fn statistic_list_conforms(v: Vec<Statistic>, level: nat)
    ensures
        conforms(catalog(), level, statistic_list_shape(), statistic_list_datum(v)),
{
    let items = statistic_list_data(v@);
    assert forall|i: int| 0 <= i < items.len() implies conforms(
        catalog(),
        catalog().len(),
        Statistic::shape(),
        #[trigger] items[i],
    ) by {
        v@[i].lemma_conforms(catalog().len());
    }
}

/// Every value of the shape is the model of a list of this type.
pub proof fn statistic_list_fits(d: Datum, level: nat)
    requires
        conforms(catalog(), level, statistic_list_shape(), d),
    ensures
        statistic_list_valid(d),
{
    let items = d->List_0;
    assert forall|i: int| 0 <= i < items.len() implies Statistic::valid((#[trigger] items[i])) by {
        Statistic::lemma_fits(items[i], catalog().len());
    }
}

/// Every list of this type can be written and read back as itself.
pub proof fn statistic_list_legal(v: Vec<Statistic>, level: nat)
    ensures
        legal(catalog(), level, statistic_list_shape(), statistic_list_datum(v)),
        encode_spec(catalog(), level, statistic_list_shape(), statistic_list_datum(v)) is Array,
{
    let items = statistic_list_data(v@);
    assert forall|i: int| 0 <= i < items.len() implies legal(
        catalog(),
        catalog().len(),
        Statistic::shape(),
        #[trigger] items[i],
    ) by {
        v@[i].lemma_legal(catalog().len());
    }
}

/// The model of an optional value.
pub open spec fn opt_text_list_or_entity_datum(
    v: Option<Either<Vec<String>, Box<Entity>>>
) -> Datum {
    match v {
        None => Datum::Absent,
        Some(y) => Datum::Present(Box::new(text_list_or_entity_datum(y))),
    }
}

/// Whether `d` is the model of an optional value of this type.
pub open spec fn opt_text_list_or_entity_valid(d: Datum) -> bool {
    match d {
        Datum::Absent => true,
        Datum::Present(y) => text_list_or_entity_valid(*y),
        _ => false,
    }
}

/// The shape of an optional value of this type.
pub open spec fn opt_text_list_or_entity_shape() -> Shape {
    Shape::Optional(Box::new(text_list_or_entity_shape()))
}

/// The node of an optional value of this type.
pub fn opt_text_list_or_entity_node() -> (n: Node)
    ensures
        n.shape() == opt_text_list_or_entity_shape(),
{
    Node::Optional(Box::new(text_list_or_entity_node()))
}

/// An optional value in generic form.
pub fn opt_text_list_or_entity_to(v: &Option<Either<Vec<String>, Box<Entity>>>) -> (x: Instance)
    ensures
        x@ == opt_text_list_or_entity_datum(*v),
{
    match v {
        None => Instance::Absent,
        Some(y) => Instance::Present(Box::new(text_list_or_entity_to(y))),
    }
}

/// The optional value that an instance stands for, if it stands for one.
pub fn opt_text_list_or_entity_from(x: &Instance) -> (
    r: Option<Option<Either<Vec<String>, Box<Entity>>>>
)
    ensures
        match r {
            Some(v) => opt_text_list_or_entity_datum(v) == x@,
            None => !opt_text_list_or_entity_valid(x@),
        },
{
    match x {
        Instance::Absent => Some(None),
        Instance::Present(y) => match text_list_or_entity_from(y) {
            Some(v) => Some(Some(v)),
            None => None,
        },
        _ => None,
    }
}

/// Every optional value of this type is a value of its shape.
pub proof fn opt_text_list_or_entity_conforms(
    v: Option<Either<Vec<String>, Box<Entity>>>,
    level: nat,
)
    requires
        level == catalog().len(),
    ensures
        conforms(
            catalog(),
            level,
            opt_text_list_or_entity_shape(),
            opt_text_list_or_entity_datum(v),
        ),
{
    match v {
        Some(y) => {
            text_list_or_entity_conforms(y, level);
        },
        None => {},
    }
}

/// Every value of the shape is the model of an optional value of this type.
pub proof fn opt_text_list_or_entity_fits(d: Datum, level: nat)
    requires
        conforms(catalog(), level, opt_text_list_or_entity_shape(), d),
    ensures
        opt_text_list_or_entity_valid(d),
{
    match d {
        Datum::Present(y) => {
            text_list_or_entity_fits(*y, level);
        },
        _ => {},
    }
}

/// Every optional value of this type can be written and read back as itself.
pub proof fn opt_text_list_or_entity_legal(v: Option<Either<Vec<String>, Box<Entity>>>, level: nat)
    requires
        level == catalog().len(),
    ensures
        legal(catalog(), level, opt_text_list_or_entity_shape(), opt_text_list_or_entity_datum(v)),
        ({
                    let k = kind_of(
                        encode_spec(
                            catalog(),
                            level,
                            opt_text_list_or_entity_shape(),
                            opt_text_list_or_entity_datum(v),
                        )
                    );
                    k == Kind::Null || k == Kind::Array || k == Kind::Object
                }),
{
    match v {
        Some(y) => {
            text_list_or_entity_legal(y, level);
        },
        None => {},
    }
}

/// The model of a value of this type.
pub open spec fn text_list_or_entity_datum(v: Either<Vec<String>, Box<Entity>>) -> Datum {
    match v {
        Either::Left(v0) => Datum::Variant(0, Box::new(text_list_datum(v0))),
        Either::Right(v0) => Datum::Variant(1, Box::new((*v0).datum())),
    }
}

/// Whether `d` is the model of a value of this type.
pub open spec fn text_list_or_entity_valid(d: Datum) -> bool {
    d matches Datum::Variant(i, y) && if i == 0 {
        text_list_valid(*y)
    } else if i == 1 {
        Entity::valid(*y)
    } else {
        false
    }
}

/// The shapes of the alternatives, in declaration order.
pub open spec fn text_list_or_entity_alts() -> Seq<Shape> {
    Seq::empty().push(text_list_shape()).push(Entity::shape())
}

/// The shape of the documents of this type.
pub open spec fn text_list_or_entity_shape() -> Shape {
    Shape::Untagged(text_list_or_entity_alts())
}

/// The node of the documents of this type.
pub fn text_list_or_entity_node() -> (n: Node)
    ensures
        n.shape() == text_list_or_entity_shape(),
{
    let mut alts = no_nodes();
    let n0 = text_list_node();
    push_node(&mut alts, n0);
    let n1 = Entity::node();
    push_node(&mut alts, n1);
    Node::Untagged(alts)
}

/// A value of this type in generic form.
pub fn text_list_or_entity_to(v: &Either<Vec<String>, Box<Entity>>) -> (x: Instance)
    ensures
        x@ == text_list_or_entity_datum(*v),
{
    match v {
        Either::Left(v0) => Instance::Variant(0, Box::new(text_list_to(v0))),
        Either::Right(v0) => Instance::Variant(1, Box::new(Entity::to_instance(&**v0))),
    }
}

/// The value that an instance stands for, if it stands for one.
pub fn text_list_or_entity_from(x: &Instance) -> (r: Option<Either<Vec<String>, Box<Entity>>>)
    ensures
        match r {
            Some(t) => text_list_or_entity_datum(t) == x@,
            None => !text_list_or_entity_valid(x@),
        },
{
    match x {
        Instance::Variant(i, y) => match *i {
            0 => match text_list_from(y) {
                Some(v) => Some(Either::Left(v)),
                None => None,
            },
            1 => match boxed(Entity::from_instance(y)) {
                Some(v) => Some(Either::Right(v)),
                None => None,
            },
            _ => None,
        },
        _ => None,
    }
}

/// Every value of this type is a value of its shape.
pub proof fn text_list_or_entity_conforms(v: Either<Vec<String>, Box<Entity>>, level: nat)
    requires
        level == catalog().len(),
    ensures
        conforms(catalog(), level, text_list_or_entity_shape(), text_list_or_entity_datum(v)),
{
    match v {
        Either::Left(v0) => {
            assert(text_list_or_entity_alts()[0] == text_list_shape());
            text_list_conforms(v0, level);
        },
        Either::Right(v0) => {
            assert(text_list_or_entity_alts()[1] == Entity::shape());
            (*v0).lemma_conforms(level);
        },
    }
}

/// Every value of the shape of this type is the model of one of its values.
pub proof fn text_list_or_entity_fits(d: Datum, level: nat)
    requires
        conforms(catalog(), level, text_list_or_entity_shape(), d),
    ensures
        text_list_or_entity_valid(d),
{
    let i = d->Variant_0;
    let y = *d->Variant_1;
    if i == 0 {
        assert(text_list_or_entity_alts()[0] == text_list_shape());
        assert(conforms(catalog(), level, text_list_shape(), y));
        text_list_fits(y, level);
    } else if i == 1 {
        assert(text_list_or_entity_alts()[1] == Entity::shape());
        assert(conforms(catalog(), level, Entity::shape(), y));
        Entity::lemma_fits(y, level);
    }
}

/// Every value of this type can be written and read back as itself.
pub proof fn text_list_or_entity_legal(v: Either<Vec<String>, Box<Entity>>, level: nat)
    requires
        level == catalog().len(),
    ensures
        legal(catalog(), level, text_list_or_entity_shape(), text_list_or_entity_datum(v)),
        ({
                    let k = kind_of(
                        encode_spec(
                            catalog(),
                            level,
                            text_list_or_entity_shape(),
                            text_list_or_entity_datum(v),
                        )
                    );
                    k == Kind::Array || k == Kind::Object
                }),
{
    match v {
        Either::Left(v0) => {
            assert(text_list_or_entity_alts()[0] == text_list_shape());
            text_list_legal(v0, level);
        },
        Either::Right(v0) => {
            assert(text_list_or_entity_alts()[1] == Entity::shape());
            (*v0).lemma_legal(level);
            let v = encode_spec(catalog(), level, Entity::shape(), (*v0).datum());
            assert forall|j: int| 0 <= j < 1 implies (#[trigger] decode_spec(
                catalog(),
                level,
                text_list_or_entity_alts()[j],
                v,
            )) is Err by {
                assert(text_list_or_entity_alts()[0] == text_list_shape());
                lemma_wrong_kind(catalog(), level, text_list_shape(), v);
            }
        },
    }
}

} // verus!
