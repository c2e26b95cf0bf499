//! Custom advancements of data packs.

use crate::encode::{conforms, encode_spec, legal};
use crate::instance::{data, Datum, Instance, named_data};
use crate::minecraft::catalog::{
    ADVANCEMENT, catalog, CRITERION, DISPLAY, FRAME, ICON, lemma_catalog, REWARDS,
};
use crate::minecraft::common::Either;
use crate::minecraft::data::conditions::{
    Entity, Item, Location, opt_item_conforms, opt_item_datum, opt_item_fits, opt_item_from,
    opt_item_legal, opt_item_node, opt_item_shape, opt_item_to, opt_item_valid,
    opt_location_conforms, opt_location_datum, opt_location_fits, opt_location_from,
    opt_location_legal, opt_location_node, opt_location_shape, opt_location_to, opt_location_valid,
    opt_text_list_or_entity_conforms, opt_text_list_or_entity_datum, opt_text_list_or_entity_fits,
    opt_text_list_or_entity_from, opt_text_list_or_entity_legal, opt_text_list_or_entity_node,
    opt_text_list_or_entity_shape, opt_text_list_or_entity_to, opt_text_list_or_entity_valid,
};
use crate::minecraft::plain::{
    bool_from, bool_node, bool_to, boxed, defaulted, empty_list, field_defaulted, field_required,
    int_from, int_node, int_to, lemma_field, lemma_more_fields, lemma_no_fields, lemma_plain,
    lemma_plain_legal, lemma_record, lemma_ref, lemma_unref, no_branches, no_fields, no_values,
    no_words, opt_int_conforms, opt_int_datum, opt_int_fits, opt_int_from, opt_int_legal,
    opt_int_node, opt_int_shape, opt_int_to, opt_int_valid, opt_text_conforms, opt_text_datum,
    opt_text_fits, opt_text_from, opt_text_legal, opt_text_node, opt_text_shape, opt_text_to,
    opt_text_valid, push_branch, push_field, push_value, push_word, required, text_from,
    text_list_conforms, text_list_data, text_list_datum, text_list_fits, text_list_from,
    text_list_legal, text_list_list_conforms, text_list_list_datum, text_list_list_fits,
    text_list_list_from, text_list_list_legal, text_list_list_node, text_list_list_shape,
    text_list_list_to, text_list_list_valid, text_list_node, text_list_shape, text_list_to,
    text_list_valid, text_node, text_to, word,
};
use crate::minecraft::text::TextComponent;
use crate::rejects::{
    lemma_more_fields_legal, lemma_no_fields_legal, lemma_record_legal, lemma_written_by_reference,
};
use crate::schema::{FieldShape, Node, Omit, Shape};
use crate::value::{Kind, kind_of, words};
use vstd::prelude::*;

verus! {

/// The item shown as the icon of an advancement.
#[derive(Debug, PartialEq, Eq)]
pub struct Icon {
    pub item: String,
    pub nbt: Option<String>,
}

impl Icon {
    /// The model of this value.
    pub open spec fn datum(&self) -> Datum {
        Datum::Record(Seq::empty().push(Datum::Text(self.item@)).push(opt_text_datum(self.nbt)))
    }

    /// Whether `d` is the model of a value of this type.
    pub open spec fn valid(d: Datum) -> bool {
        &&& d matches Datum::Record(vs)
        &&& vs.len() == 2
        &&& vs[0] is Text
        &&& opt_text_valid(vs[1])
    }

    /// The fields of this type, in declaration order.
    pub open spec fn fields() -> Seq<FieldShape> {
        Seq::empty()
            .push(required("item"@, Shape::Text))
            .push(defaulted("nbt"@, opt_text_shape(), Datum::Absent, Omit::IfAbsent))
    }

    /// The shape of the documents of this type.
    #[verifier::opaque]
    pub open spec fn def_shape() -> Shape {
        Shape::Record(Self::fields())
    }

    /// The node of the documents of this type.
    pub fn def_node() -> (n: Node)
        ensures
            n.shape() == Self::def_shape(),
    {
        reveal(Icon::def_shape);
        let mut fields = no_fields();
        push_field(&mut fields, field_required("item", text_node()));
        push_field(
            &mut fields,
            field_defaulted("nbt", opt_text_node(), Instance::Absent, Omit::IfAbsent),
        );
        Node::Record(fields)
    }

    /// This value in generic form.
    pub fn to_instance(&self) -> (x: Instance)
        ensures
            x@ == self.datum(),
    {
        let mut values = no_values();
        push_value(&mut values, text_to(&self.item));
        push_value(&mut values, opt_text_to(&self.nbt));
        Instance::Record(values)
    }

    /// The value that an instance stands for, if it stands for one.
    pub fn from_instance(x: &Instance) -> (r: Option<Icon>)
        ensures
            match r {
                Some(t) => t.datum() == x@,
                None => !Self::valid(x@),
            },
    {
        match x {
            Instance::Record(values) => {
                assert(x@->Record_0 == data(values@));
                if values.len() != 2 {
                    return None;
                }
                let f0 = match text_from(&values[0]) {
                    Some(v) => v,
                    None => {
                        assert(data(values@)[0] == values[0]@);
                        return None;
                    },
                };
                let f1 = match opt_text_from(&values[1]) {
                    Some(v) => v,
                    None => {
                        assert(data(values@)[1] == values[1]@);
                        return None;
                    },
                };
                let t = Icon { item: f0, nbt: f1 };
                assert(
                    data(values@) =~= Seq::empty().push(Datum::Text(t.item@)).push(
                        opt_text_datum(t.nbt)
                    )
                );
                Some(t)
            },
            _ => None,
        }
    }

    /// The reference to the definition of this type.
    pub open spec fn shape() -> Shape {
        Shape::Ref(ICON as nat)
    }

    /// The node that refers to the definition of this type.
    pub fn node() -> (n: Node)
        ensures
            n.shape() == Self::shape(),
    {
        Node::Ref(ICON)
    }

    /// Every value of this type is a value of its shape.
    pub proof fn lemma_conforms(&self, level: nat)
        ensures
            conforms(catalog(), level, Self::def_shape(), self.datum()),
            conforms(catalog(), catalog().len(), Self::shape(), self.datum()),
    {
        lemma_catalog();
        self.lemma_conforms_def(ICON as nat);
        lemma_ref(catalog(), ICON as nat, self.datum());
        self.lemma_conforms_def(level);
    }

    /// Every value of the shape of this type is the model of one of its values.
    pub proof fn lemma_fits(d: Datum, level: nat)
        requires
            conforms(catalog(), level, Self::def_shape(), d) || conforms(
                catalog(),
                level,
                Self::shape(),
                d,
            ),
        ensures
            Self::valid(d),
    {
        lemma_catalog();
        if conforms(catalog(), level, Self::def_shape(), d) {
            Self::lemma_fits_def(d, level);
        } else {
            lemma_unref(catalog(), level, ICON as nat, d);
            Self::lemma_fits_def(d, ICON as nat);
        }
    }

    proof fn lemma_conforms_def(&self, level: nat)
        ensures
            conforms(catalog(), level, Self::def_shape(), self.datum()),
    {
        reveal(Icon::def_shape);
        let fs0 = Seq::<FieldShape>::empty();
        let vs0 = Seq::<Datum>::empty();
        lemma_no_fields(catalog(), level);
        lemma_plain(catalog(), catalog().len(), Datum::Text(self.item@));
        lemma_more_fields(
            catalog(),
            level,
            fs0,
            vs0,
            required("item"@, Shape::Text),
            Datum::Text(self.item@),
        );
        let fs1 = fs0.push(required("item"@, Shape::Text));
        let vs1 = vs0.push(Datum::Text(self.item@));
        opt_text_conforms(self.nbt, catalog().len());
        lemma_more_fields(
            catalog(),
            level,
            fs1,
            vs1,
            defaulted("nbt"@, opt_text_shape(), Datum::Absent, Omit::IfAbsent),
            opt_text_datum(self.nbt),
        );
        let fs2 = fs1.push(defaulted("nbt"@, opt_text_shape(), Datum::Absent, Omit::IfAbsent));
        let vs2 = vs1.push(opt_text_datum(self.nbt));
        lemma_record(catalog(), level, fs2, vs2);
    }

    proof fn lemma_fits_def(d: Datum, level: nat)
        requires
            conforms(catalog(), level, Self::def_shape(), d),
        ensures
            Self::valid(d),
    {
        reveal(Icon::def_shape);
        let fields = Self::fields();
        let vs = d->Record_0;
        lemma_field(catalog(), level, fields, d, 0);
        assert(fields[0] == required("item"@, Shape::Text));
        lemma_plain(catalog(), catalog().len(), vs[0]);
        lemma_field(catalog(), level, fields, d, 1);
        assert(fields[1] == defaulted("nbt"@, opt_text_shape(), Datum::Absent, Omit::IfAbsent));
        opt_text_fits(vs[1], catalog().len());
    }

    /// Every value of this type can be written and read back as itself.
    pub proof fn lemma_legal(&self, level: nat)
        ensures
            legal(catalog(), level, Self::def_shape(), self.datum()),
            legal(catalog(), catalog().len(), Self::shape(), self.datum()),
            encode_spec(catalog(), level, Self::def_shape(), self.datum()) is Object,
            encode_spec(catalog(), catalog().len(), Self::shape(), self.datum()) is Object,
    {
        lemma_catalog();
        self.lemma_legal_def(ICON as nat);
        lemma_written_by_reference(catalog(), catalog().len(), ICON as nat, self.datum());
        self.lemma_legal_def(level);
    }

    proof fn lemma_legal_def(&self, level: nat)
        ensures
            legal(catalog(), level, Self::def_shape(), self.datum()),
            encode_spec(catalog(), level, Self::def_shape(), self.datum()) is Object,
    {
        reveal(Icon::def_shape);
        let fs0 = Seq::<FieldShape>::empty();
        let vs0 = Seq::<Datum>::empty();
        lemma_no_fields_legal(catalog(), level);
        lemma_plain_legal(catalog(), catalog().len(), Datum::Text(self.item@));
        lemma_more_fields_legal(
            catalog(),
            level,
            fs0,
            vs0,
            required("item"@, Shape::Text),
            Datum::Text(self.item@),
        );
        let fs1 = fs0.push(required("item"@, Shape::Text));
        let vs1 = vs0.push(Datum::Text(self.item@));
        opt_text_legal(self.nbt, catalog().len());
        lemma_more_fields_legal(
            catalog(),
            level,
            fs1,
            vs1,
            defaulted("nbt"@, opt_text_shape(), Datum::Absent, Omit::IfAbsent),
            opt_text_datum(self.nbt),
        );
        let fs2 = fs1.push(defaulted("nbt"@, opt_text_shape(), Datum::Absent, Omit::IfAbsent));
        let vs2 = vs1.push(opt_text_datum(self.nbt));
        lemma_record_legal(catalog(), level, fs2, vs2);
    }
}

/// The frame drawn around the icon of an advancement.
#[derive(Debug, PartialEq, Eq)]
pub enum Frame {
    Challenge,
    Goal,
    Task,
}

impl Frame {
    /// The words that stand for the variants, in declaration order.
    pub open spec fn names() -> Seq<Seq<char>> {
        Seq::empty().push("challenge"@).push("goal"@).push("task"@)
    }

    /// The model of this value.
    pub open spec fn datum(&self) -> Datum {
        Datum::Keyword(
            match self {
                Frame::Challenge => 0,
                Frame::Goal => 1,
                Frame::Task => 2,
            },
        )
    }

    /// Whether `d` is the model of a value of this type.
    pub open spec fn valid(d: Datum) -> bool {
        d matches Datum::Keyword(i) && i < 3
    }

    /// The shape of the documents of this type.
    #[verifier::opaque]
    pub open spec fn def_shape() -> Shape {
        Shape::Keyword(Self::names())
    }

    /// The node of the documents of this type.
    pub fn def_node() -> (n: Node)
        ensures
            n.shape() == Self::def_shape(),
    {
        reveal(Frame::def_shape);
        let mut names = no_words();
        push_word(&mut names, "challenge");
        push_word(&mut names, "goal");
        push_word(&mut names, "task");
        Node::Keyword(names)
    }

    /// This value in generic form.
    pub fn to_instance(&self) -> (x: Instance)
        ensures
            x@ == self.datum(),
    {
        Instance::Keyword(
            match self {
                Frame::Challenge => 0,
                Frame::Goal => 1,
                Frame::Task => 2,
            },
        )
    }

    /// The value that an instance stands for, if it stands for one.
    pub fn from_instance(x: &Instance) -> (r: Option<Frame>)
        ensures
            match r {
                Some(t) => t.datum() == x@,
                None => !Self::valid(x@),
            },
    {
        match x {
            Instance::Keyword(i) => match *i {
                0 => Some(Frame::Challenge),
                1 => Some(Frame::Goal),
                2 => Some(Frame::Task),
                _ => None,
            },
            _ => None,
        }
    }

    /// The reference to the definition of this type.
    pub open spec fn shape() -> Shape {
        Shape::Ref(FRAME as nat)
    }

    /// The node that refers to the definition of this type.
    pub fn node() -> (n: Node)
        ensures
            n.shape() == Self::shape(),
    {
        Node::Ref(FRAME)
    }

    /// Every value of this type is a value of its shape.
    pub proof fn lemma_conforms(&self, level: nat)
        ensures
            conforms(catalog(), level, Self::def_shape(), self.datum()),
            conforms(catalog(), catalog().len(), Self::shape(), self.datum()),
    {
        lemma_catalog();
        self.lemma_conforms_def(FRAME as nat);
        lemma_ref(catalog(), FRAME as nat, self.datum());
        self.lemma_conforms_def(level);
    }

    /// Every value of the shape of this type is the model of one of its values.
    pub proof fn lemma_fits(d: Datum, level: nat)
        requires
            conforms(catalog(), level, Self::def_shape(), d) || conforms(
                catalog(),
                level,
                Self::shape(),
                d,
            ),
        ensures
            Self::valid(d),
    {
        lemma_catalog();
        if conforms(catalog(), level, Self::def_shape(), d) {
            Self::lemma_fits_def(d, level);
        } else {
            lemma_unref(catalog(), level, FRAME as nat, d);
            Self::lemma_fits_def(d, FRAME as nat);
        }
    }

    proof fn lemma_conforms_def(&self, level: nat)
        ensures
            conforms(catalog(), level, Self::def_shape(), self.datum()),
    {
        reveal(Frame::def_shape);
        assert(Self::names().len() == 3);
    }

    proof fn lemma_fits_def(d: Datum, level: nat)
        requires
            conforms(catalog(), level, Self::def_shape(), d),
        ensures
            Self::valid(d),
    {
        reveal(Frame::def_shape);
        assert(Self::names().len() == 3);
    }

    /// Every value of this type can be written and read back as itself.
    pub proof fn lemma_legal(&self, level: nat)
        ensures
            legal(catalog(), level, Self::def_shape(), self.datum()),
            legal(catalog(), catalog().len(), Self::shape(), self.datum()),
            encode_spec(catalog(), level, Self::def_shape(), self.datum()) is String,
            encode_spec(catalog(), catalog().len(), Self::shape(), self.datum()) is String,
    {
        lemma_catalog();
        self.lemma_legal_def(FRAME as nat);
        lemma_written_by_reference(catalog(), catalog().len(), FRAME as nat, self.datum());
        self.lemma_legal_def(level);
    }

    proof fn lemma_legal_def(&self, level: nat)
        ensures
            legal(catalog(), level, Self::def_shape(), self.datum()),
            encode_spec(catalog(), level, Self::def_shape(), self.datum()) is String,
    {
        reveal(Frame::def_shape);
        assert(Self::names().len() == 3);
    }
}

impl Default for Frame {
    fn default() -> (r: Frame)
        ensures
            r == Frame::Task,
    {
        Frame::Task
    }
}

/// How an advancement is shown to the player.
#[derive(Debug, PartialEq, Eq)]
pub struct Display {
    pub icon: Option<Icon>,
    pub title: TextComponent,
    pub frame: Frame,
    pub background: Option<String>,
    pub description: TextComponent,
    pub show_toast: bool,
    pub announce_to_chat: bool,
    pub hidden: bool,
}

impl Display {
    /// The model of this value.
    pub open spec fn datum(&self) -> Datum {
        Datum::Record(
            Seq::empty()
                .push(opt_icon_datum(self.icon))
                .push(self.title.datum())
                .push(self.frame.datum())
                .push(opt_text_datum(self.background))
                .push(self.description.datum())
                .push(Datum::Bool(self.show_toast))
                .push(Datum::Bool(self.announce_to_chat))
                .push(Datum::Bool(self.hidden)),
        )
    }

    /// Whether `d` is the model of a value of this type.
    pub open spec fn valid(d: Datum) -> bool {
        &&& d matches Datum::Record(vs)
        &&& vs.len() == 8
        &&& opt_icon_valid(vs[0])
        &&& TextComponent::valid(vs[1])
        &&& Frame::valid(vs[2])
        &&& opt_text_valid(vs[3])
        &&& TextComponent::valid(vs[4])
        &&& vs[5] is Bool
        &&& vs[6] is Bool
        &&& vs[7] is Bool
    }

    /// The fields of this type, in declaration order.
    pub open spec fn fields() -> Seq<FieldShape> {
        Seq::empty()
            .push(defaulted("icon"@, opt_icon_shape(), Datum::Absent, Omit::IfAbsent))
            .push(required("title"@, TextComponent::shape()))
            .push(defaulted("frame"@, Frame::shape(), Datum::Keyword(2), Omit::IfDefault))
            .push(defaulted("background"@, opt_text_shape(), Datum::Absent, Omit::IfAbsent))
            .push(required("description"@, TextComponent::shape()))
            .push(defaulted("show_toast"@, Shape::Bool, Datum::Bool(true), Omit::IfTrue))
            .push(defaulted("announce_to_chat"@, Shape::Bool, Datum::Bool(true), Omit::IfTrue))
            .push(defaulted("hidden"@, Shape::Bool, Datum::Bool(false), Omit::IfFalse))
    }

    /// The shape of the documents of this type.
    #[verifier::opaque]
    pub open spec fn def_shape() -> Shape {
        Shape::Record(Self::fields())
    }

    /// The node of the documents of this type.
    pub fn def_node() -> (n: Node)
        ensures
            n.shape() == Self::def_shape(),
    {
        reveal(Display::def_shape);
        let mut fields = no_fields();
        push_field(
            &mut fields,
            field_defaulted("icon", opt_icon_node(), Instance::Absent, Omit::IfAbsent),
        );
        push_field(&mut fields, field_required("title", TextComponent::node()));
        push_field(
            &mut fields,
            field_defaulted("frame", Frame::node(), Frame::Task.to_instance(), Omit::IfDefault),
        );
        push_field(
            &mut fields,
            field_defaulted("background", opt_text_node(), Instance::Absent, Omit::IfAbsent),
        );
        push_field(&mut fields, field_required("description", TextComponent::node()));
        push_field(
            &mut fields,
            field_defaulted("show_toast", bool_node(), bool_to(&true), Omit::IfTrue),
        );
        push_field(
            &mut fields,
            field_defaulted("announce_to_chat", bool_node(), bool_to(&true), Omit::IfTrue),
        );
        push_field(
            &mut fields,
            field_defaulted("hidden", bool_node(), bool_to(&false), Omit::IfFalse),
        );
        Node::Record(fields)
    }

    /// This value in generic form.
    pub fn to_instance(&self) -> (x: Instance)
        ensures
            x@ == self.datum(),
    {
        let mut values = no_values();
        push_value(&mut values, opt_icon_to(&self.icon));
        push_value(&mut values, TextComponent::to_instance(&self.title));
        push_value(&mut values, Frame::to_instance(&self.frame));
        push_value(&mut values, opt_text_to(&self.background));
        push_value(&mut values, TextComponent::to_instance(&self.description));
        push_value(&mut values, bool_to(&self.show_toast));
        push_value(&mut values, bool_to(&self.announce_to_chat));
        push_value(&mut values, bool_to(&self.hidden));
        Instance::Record(values)
    }

    /// The value that an instance stands for, if it stands for one.
    pub fn from_instance(x: &Instance) -> (r: Option<Display>)
        ensures
            match r {
                Some(t) => t.datum() == x@,
                None => !Self::valid(x@),
            },
    {
        match x {
            Instance::Record(values) => {
                assert(x@->Record_0 == data(values@));
                if values.len() != 8 {
                    return None;
                }
                let f0 = match opt_icon_from(&values[0]) {
                    Some(v) => v,
                    None => {
                        assert(data(values@)[0] == values[0]@);
                        return None;
                    },
                };
                let f1 = match TextComponent::from_instance(&values[1]) {
                    Some(v) => v,
                    None => {
                        assert(data(values@)[1] == values[1]@);
                        return None;
                    },
                };
                let f2 = match Frame::from_instance(&values[2]) {
                    Some(v) => v,
                    None => {
                        assert(data(values@)[2] == values[2]@);
                        return None;
                    },
                };
                let f3 = match opt_text_from(&values[3]) {
                    Some(v) => v,
                    None => {
                        assert(data(values@)[3] == values[3]@);
                        return None;
                    },
                };
                let f4 = match TextComponent::from_instance(&values[4]) {
                    Some(v) => v,
                    None => {
                        assert(data(values@)[4] == values[4]@);
                        return None;
                    },
                };
                let f5 = match bool_from(&values[5]) {
                    Some(v) => v,
                    None => {
                        assert(data(values@)[5] == values[5]@);
                        return None;
                    },
                };
                let f6 = match bool_from(&values[6]) {
                    Some(v) => v,
                    None => {
                        assert(data(values@)[6] == values[6]@);
                        return None;
                    },
                };
                let f7 = match bool_from(&values[7]) {
                    Some(v) => v,
                    None => {
                        assert(data(values@)[7] == values[7]@);
                        return None;
                    },
                };
                let t = Display { icon: f0, title: f1, frame: f2, background: f3, description: f4, show_toast: f5, announce_to_chat: f6, hidden: f7 };
                assert(
                    data(values@) =~= Seq::empty()
                        .push(opt_icon_datum(t.icon))
                        .push(t.title.datum())
                        .push(t.frame.datum())
                        .push(opt_text_datum(t.background))
                        .push(t.description.datum())
                        .push(Datum::Bool(t.show_toast))
                        .push(Datum::Bool(t.announce_to_chat))
                        .push(Datum::Bool(t.hidden))
                );
                Some(t)
            },
            _ => None,
        }
    }

    /// The reference to the definition of this type.
    pub open spec fn shape() -> Shape {
        Shape::Ref(DISPLAY as nat)
    }

    /// The node that refers to the definition of this type.
    pub fn node() -> (n: Node)
        ensures
            n.shape() == Self::shape(),
    {
        Node::Ref(DISPLAY)
    }

    /// Every value of this type is a value of its shape.
    pub proof fn lemma_conforms(&self, level: nat)
        ensures
            conforms(catalog(), level, Self::def_shape(), self.datum()),
            conforms(catalog(), catalog().len(), Self::shape(), self.datum()),
    {
        lemma_catalog();
        self.lemma_conforms_def(DISPLAY as nat);
        lemma_ref(catalog(), DISPLAY as nat, self.datum());
        self.lemma_conforms_def(level);
    }

    /// Every value of the shape of this type is the model of one of its values.
    pub proof fn lemma_fits(d: Datum, level: nat)
        requires
            conforms(catalog(), level, Self::def_shape(), d) || conforms(
                catalog(),
                level,
                Self::shape(),
                d,
            ),
        ensures
            Self::valid(d),
    {
        lemma_catalog();
        if conforms(catalog(), level, Self::def_shape(), d) {
            Self::lemma_fits_def(d, level);
        } else {
            lemma_unref(catalog(), level, DISPLAY as nat, d);
            Self::lemma_fits_def(d, DISPLAY as nat);
        }
    }

    proof fn lemma_conforms_def(&self, level: nat)
        ensures
            conforms(catalog(), level, Self::def_shape(), self.datum()),
    {
        reveal(Display::def_shape);
        let fs0 = Seq::<FieldShape>::empty();
        let vs0 = Seq::<Datum>::empty();
        lemma_no_fields(catalog(), level);
        opt_icon_conforms(self.icon, catalog().len());
        lemma_more_fields(
            catalog(),
            level,
            fs0,
            vs0,
            defaulted("icon"@, opt_icon_shape(), Datum::Absent, Omit::IfAbsent),
            opt_icon_datum(self.icon),
        );
        let fs1 = fs0.push(defaulted("icon"@, opt_icon_shape(), Datum::Absent, Omit::IfAbsent));
        let vs1 = vs0.push(opt_icon_datum(self.icon));
        self.title.lemma_conforms(catalog().len());
        lemma_more_fields(
            catalog(),
            level,
            fs1,
            vs1,
            required("title"@, TextComponent::shape()),
            self.title.datum(),
        );
        let fs2 = fs1.push(required("title"@, TextComponent::shape()));
        let vs2 = vs1.push(self.title.datum());
        self.frame.lemma_conforms(catalog().len());
        lemma_more_fields(
            catalog(),
            level,
            fs2,
            vs2,
            defaulted("frame"@, Frame::shape(), Datum::Keyword(2), Omit::IfDefault),
            self.frame.datum(),
        );
        let fs3 = fs2.push(defaulted("frame"@, Frame::shape(), Datum::Keyword(2), Omit::IfDefault));
        let vs3 = vs2.push(self.frame.datum());
        opt_text_conforms(self.background, catalog().len());
        lemma_more_fields(
            catalog(),
            level,
            fs3,
            vs3,
            defaulted("background"@, opt_text_shape(), Datum::Absent, Omit::IfAbsent),
            opt_text_datum(self.background),
        );
        let fs4 = fs3.push(
            defaulted("background"@, opt_text_shape(), Datum::Absent, Omit::IfAbsent)
        );
        let vs4 = vs3.push(opt_text_datum(self.background));
        self.description.lemma_conforms(catalog().len());
        lemma_more_fields(
            catalog(),
            level,
            fs4,
            vs4,
            required("description"@, TextComponent::shape()),
            self.description.datum(),
        );
        let fs5 = fs4.push(required("description"@, TextComponent::shape()));
        let vs5 = vs4.push(self.description.datum());
        lemma_plain(catalog(), catalog().len(), Datum::Bool(self.show_toast));
        lemma_more_fields(
            catalog(),
            level,
            fs5,
            vs5,
            defaulted("show_toast"@, Shape::Bool, Datum::Bool(true), Omit::IfTrue),
            Datum::Bool(self.show_toast),
        );
        let fs6 = fs5.push(defaulted("show_toast"@, Shape::Bool, Datum::Bool(true), Omit::IfTrue));
        let vs6 = vs5.push(Datum::Bool(self.show_toast));
        lemma_plain(catalog(), catalog().len(), Datum::Bool(self.announce_to_chat));
        lemma_more_fields(
            catalog(),
            level,
            fs6,
            vs6,
            defaulted("announce_to_chat"@, Shape::Bool, Datum::Bool(true), Omit::IfTrue),
            Datum::Bool(self.announce_to_chat),
        );
        let fs7 = fs6.push(
            defaulted("announce_to_chat"@, Shape::Bool, Datum::Bool(true), Omit::IfTrue)
        );
        let vs7 = vs6.push(Datum::Bool(self.announce_to_chat));
        lemma_plain(catalog(), catalog().len(), Datum::Bool(self.hidden));
        lemma_more_fields(
            catalog(),
            level,
            fs7,
            vs7,
            defaulted("hidden"@, Shape::Bool, Datum::Bool(false), Omit::IfFalse),
            Datum::Bool(self.hidden),
        );
        let fs8 = fs7.push(defaulted("hidden"@, Shape::Bool, Datum::Bool(false), Omit::IfFalse));
        let vs8 = vs7.push(Datum::Bool(self.hidden));
        lemma_record(catalog(), level, fs8, vs8);
    }

    proof fn lemma_fits_def(d: Datum, level: nat)
        requires
            conforms(catalog(), level, Self::def_shape(), d),
        ensures
            Self::valid(d),
    {
        reveal(Display::def_shape);
        let fields = Self::fields();
        let vs = d->Record_0;
        lemma_field(catalog(), level, fields, d, 0);
        assert(fields[0] == defaulted("icon"@, opt_icon_shape(), Datum::Absent, Omit::IfAbsent));
        opt_icon_fits(vs[0], catalog().len());
        lemma_field(catalog(), level, fields, d, 1);
        assert(fields[1] == required("title"@, TextComponent::shape()));
        TextComponent::lemma_fits(vs[1], catalog().len());
        lemma_field(catalog(), level, fields, d, 2);
        assert(
            fields[2] == defaulted("frame"@, Frame::shape(), Datum::Keyword(2), Omit::IfDefault)
        );
        Frame::lemma_fits(vs[2], catalog().len());
        lemma_field(catalog(), level, fields, d, 3);
        assert(
            fields[3] == defaulted("background"@, opt_text_shape(), Datum::Absent, Omit::IfAbsent)
        );
        opt_text_fits(vs[3], catalog().len());
        lemma_field(catalog(), level, fields, d, 4);
        assert(fields[4] == required("description"@, TextComponent::shape()));
        TextComponent::lemma_fits(vs[4], catalog().len());
        lemma_field(catalog(), level, fields, d, 5);
        assert(fields[5] == defaulted("show_toast"@, Shape::Bool, Datum::Bool(true), Omit::IfTrue));
        lemma_plain(catalog(), catalog().len(), vs[5]);
        lemma_field(catalog(), level, fields, d, 6);
        assert(
            fields[6] == defaulted(
                "announce_to_chat"@,
                Shape::Bool,
                Datum::Bool(true),
                Omit::IfTrue,
            )
        );
        lemma_plain(catalog(), catalog().len(), vs[6]);
        lemma_field(catalog(), level, fields, d, 7);
        assert(fields[7] == defaulted("hidden"@, Shape::Bool, Datum::Bool(false), Omit::IfFalse));
        lemma_plain(catalog(), catalog().len(), vs[7]);
    }

    /// Every value of this type can be written and read back as itself.
    pub proof fn lemma_legal(&self, level: nat)
        ensures
            legal(catalog(), level, Self::def_shape(), self.datum()),
            legal(catalog(), catalog().len(), Self::shape(), self.datum()),
            encode_spec(catalog(), level, Self::def_shape(), self.datum()) is Object,
            encode_spec(catalog(), catalog().len(), Self::shape(), self.datum()) is Object,
    {
        lemma_catalog();
        self.lemma_legal_def(DISPLAY as nat);
        lemma_written_by_reference(catalog(), catalog().len(), DISPLAY as nat, self.datum());
        self.lemma_legal_def(level);
    }

    proof fn lemma_legal_def(&self, level: nat)
        ensures
            legal(catalog(), level, Self::def_shape(), self.datum()),
            encode_spec(catalog(), level, Self::def_shape(), self.datum()) is Object,
    {
        reveal(Display::def_shape);
        let fs0 = Seq::<FieldShape>::empty();
        let vs0 = Seq::<Datum>::empty();
        lemma_no_fields_legal(catalog(), level);
        opt_icon_legal(self.icon, catalog().len());
        lemma_more_fields_legal(
            catalog(),
            level,
            fs0,
            vs0,
            defaulted("icon"@, opt_icon_shape(), Datum::Absent, Omit::IfAbsent),
            opt_icon_datum(self.icon),
        );
        let fs1 = fs0.push(defaulted("icon"@, opt_icon_shape(), Datum::Absent, Omit::IfAbsent));
        let vs1 = vs0.push(opt_icon_datum(self.icon));
        self.title.lemma_legal(catalog().len());
        lemma_more_fields_legal(
            catalog(),
            level,
            fs1,
            vs1,
            required("title"@, TextComponent::shape()),
            self.title.datum(),
        );
        let fs2 = fs1.push(required("title"@, TextComponent::shape()));
        let vs2 = vs1.push(self.title.datum());
        self.frame.lemma_legal(catalog().len());
        lemma_more_fields_legal(
            catalog(),
            level,
            fs2,
            vs2,
            defaulted("frame"@, Frame::shape(), Datum::Keyword(2), Omit::IfDefault),
            self.frame.datum(),
        );
        let fs3 = fs2.push(defaulted("frame"@, Frame::shape(), Datum::Keyword(2), Omit::IfDefault));
        let vs3 = vs2.push(self.frame.datum());
        opt_text_legal(self.background, catalog().len());
        lemma_more_fields_legal(
            catalog(),
            level,
            fs3,
            vs3,
            defaulted("background"@, opt_text_shape(), Datum::Absent, Omit::IfAbsent),
            opt_text_datum(self.background),
        );
        let fs4 = fs3.push(
            defaulted("background"@, opt_text_shape(), Datum::Absent, Omit::IfAbsent)
        );
        let vs4 = vs3.push(opt_text_datum(self.background));
        self.description.lemma_legal(catalog().len());
        lemma_more_fields_legal(
            catalog(),
            level,
            fs4,
            vs4,
            required("description"@, TextComponent::shape()),
            self.description.datum(),
        );
        let fs5 = fs4.push(required("description"@, TextComponent::shape()));
        let vs5 = vs4.push(self.description.datum());
        lemma_plain_legal(catalog(), catalog().len(), Datum::Bool(self.show_toast));
        lemma_more_fields_legal(
            catalog(),
            level,
            fs5,
            vs5,
            defaulted("show_toast"@, Shape::Bool, Datum::Bool(true), Omit::IfTrue),
            Datum::Bool(self.show_toast),
        );
        let fs6 = fs5.push(defaulted("show_toast"@, Shape::Bool, Datum::Bool(true), Omit::IfTrue));
        let vs6 = vs5.push(Datum::Bool(self.show_toast));
        lemma_plain_legal(catalog(), catalog().len(), Datum::Bool(self.announce_to_chat));
        lemma_more_fields_legal(
            catalog(),
            level,
            fs6,
            vs6,
            defaulted("announce_to_chat"@, Shape::Bool, Datum::Bool(true), Omit::IfTrue),
            Datum::Bool(self.announce_to_chat),
        );
        let fs7 = fs6.push(
            defaulted("announce_to_chat"@, Shape::Bool, Datum::Bool(true), Omit::IfTrue)
        );
        let vs7 = vs6.push(Datum::Bool(self.announce_to_chat));
        lemma_plain_legal(catalog(), catalog().len(), Datum::Bool(self.hidden));
        lemma_more_fields_legal(
            catalog(),
            level,
            fs7,
            vs7,
            defaulted("hidden"@, Shape::Bool, Datum::Bool(false), Omit::IfFalse),
            Datum::Bool(self.hidden),
        );
        let fs8 = fs7.push(defaulted("hidden"@, Shape::Bool, Datum::Bool(false), Omit::IfFalse));
        let vs8 = vs7.push(Datum::Bool(self.hidden));
        lemma_record_legal(catalog(), level, fs8, vs8);
    }
}

/// What is tracked for an advancement: a trigger with its conditions.
#[derive(Debug, PartialEq, Eq)]
#[non_exhaustive]
pub enum Criterion {
    BeeNestDestroyed {
        block: Option<String>,
        item: Option<Box<Item>>,
        num_bees_inside: Option<i64>,
        player: Option<Either<Vec<String>, Box<Entity>>>,
    },
    BredAnimals {
        child: Option<Either<Vec<String>, Box<Entity>>>,
        parent: Option<Either<Vec<String>, Box<Entity>>>,
        partner: Option<Either<Vec<String>, Box<Entity>>>,
        player: Option<Either<Vec<String>, Box<Entity>>>,
    },
    SleptInBed {
        location: Option<Box<Location>>,
        player: Option<Either<Vec<String>, Box<Entity>>>,
    },
}

impl Criterion {
    /// The model of this value.
    pub open spec fn datum(&self) -> Datum {
        match self {
            Criterion::BeeNestDestroyed { block, item, num_bees_inside, player } => Datum::Variant(
                0,
                Box::new(
                    Datum::Record(
                        Seq::empty()
                            .push(opt_text_datum(*block))
                            .push(opt_item_datum(*item))
                            .push(opt_int_datum(*num_bees_inside))
                            .push(opt_text_list_or_entity_datum(*player)),
                    ),
                ),
            ),
            Criterion::BredAnimals { child, parent, partner, player } => Datum::Variant(
                1,
                Box::new(
                    Datum::Record(
                        Seq::empty()
                            .push(opt_text_list_or_entity_datum(*child))
                            .push(opt_text_list_or_entity_datum(*parent))
                            .push(opt_text_list_or_entity_datum(*partner))
                            .push(opt_text_list_or_entity_datum(*player)),
                    ),
                ),
            ),
            Criterion::SleptInBed { location, player } => Datum::Variant(
                2,
                Box::new(
                    Datum::Record(
                        Seq::empty()
                            .push(opt_location_datum(*location))
                            .push(opt_text_list_or_entity_datum(*player)),
                    ),
                ),
            ),
        }
    }

    /// Whether `d` is the model of a value of this type.
    pub open spec fn valid(d: Datum) -> bool {
        d matches Datum::Variant(i, y) && if i == 0 {
            *y matches Datum::Record(vs) && vs.len() == 4 && opt_text_valid(vs[0]) && opt_item_valid(vs[1]) && opt_int_valid(vs[2]) && opt_text_list_or_entity_valid(
                vs[3]
            )
        } else if i == 1 {
            *y matches Datum::Record(vs) && vs.len() == 4 && opt_text_list_or_entity_valid(vs[0]) && opt_text_list_or_entity_valid(vs[1]) && opt_text_list_or_entity_valid(vs[2]) && opt_text_list_or_entity_valid(
                vs[3]
            )
        } else if i == 2 {
            *y matches Datum::Record(vs) && vs.len() == 2 && opt_location_valid(vs[0]) && opt_text_list_or_entity_valid(
                vs[1]
            )
        } else {
            false
        }
    }

    /// The fields of the variant `BeeNestDestroyed`.
    pub open spec fn bee_nest_destroyed_fields() -> Seq<FieldShape> {
        Seq::empty()
            .push(defaulted("block"@, opt_text_shape(), Datum::Absent, Omit::IfAbsent))
            .push(defaulted("item"@, opt_item_shape(), Datum::Absent, Omit::IfAbsent))
            .push(defaulted("num_bees_inside"@, opt_int_shape(), Datum::Absent, Omit::IfAbsent))
            .push(
                defaulted("player"@, opt_text_list_or_entity_shape(), Datum::Absent, Omit::IfAbsent)
            )
    }

    /// The fields of the variant `BredAnimals`.
    pub open spec fn bred_animals_fields() -> Seq<FieldShape> {
        Seq::empty()
            .push(
                defaulted("child"@, opt_text_list_or_entity_shape(), Datum::Absent, Omit::IfAbsent)
            )
            .push(
                defaulted("parent"@, opt_text_list_or_entity_shape(), Datum::Absent, Omit::IfAbsent)
            )
            .push(
                defaulted(
                    "partner"@,
                    opt_text_list_or_entity_shape(),
                    Datum::Absent,
                    Omit::IfAbsent,
                )
            )
            .push(
                defaulted("player"@, opt_text_list_or_entity_shape(), Datum::Absent, Omit::IfAbsent)
            )
    }

    /// The fields of the variant `SleptInBed`.
    pub open spec fn slept_in_bed_fields() -> Seq<FieldShape> {
        Seq::empty()
            .push(defaulted("location"@, opt_location_shape(), Datum::Absent, Omit::IfAbsent))
            .push(
                defaulted("player"@, opt_text_list_or_entity_shape(), Datum::Absent, Omit::IfAbsent)
            )
    }

    /// The branches, each with the word that selects it.
    pub open spec fn branches() -> Seq<(Seq<char>, Shape)> {
        Seq::empty()
            .push(
                ("minecraft:bee_nest_destroyed"@, Shape::Record(Self::bee_nest_destroyed_fields()))
            )
            .push(("minecraft:bred_animals"@, Shape::Record(Self::bred_animals_fields())))
            .push(("minecraft:slept_in_bed"@, Shape::Record(Self::slept_in_bed_fields())))
    }

    /// The shape of the documents of this type.
    #[verifier::opaque]
    pub open spec fn def_shape() -> Shape {
        Shape::Tagged { tag: "trigger"@, content: Some("conditions"@), branches: Self::branches() }
    }

    /// The node of the documents of this type.
    pub fn def_node() -> (n: Node)
        ensures
            n.shape() == Self::def_shape(),
    {
        reveal(Criterion::def_shape);
        let mut branches = no_branches();
        let n0 = {
            let mut fields = no_fields();
            push_field(
                &mut fields,
                field_defaulted("block", opt_text_node(), Instance::Absent, Omit::IfAbsent),
            );
            push_field(
                &mut fields,
                field_defaulted("item", opt_item_node(), Instance::Absent, Omit::IfAbsent),
            );
            push_field(
                &mut fields,
                field_defaulted(
                    "num_bees_inside",
                    opt_int_node(),
                    Instance::Absent,
                    Omit::IfAbsent,
                ),
            );
            push_field(
                &mut fields,
                field_defaulted(
                    "player",
                    opt_text_list_or_entity_node(),
                    Instance::Absent,
                    Omit::IfAbsent,
                ),
            );
            Node::Record(fields)
        };
        push_branch(&mut branches, "minecraft:bee_nest_destroyed", n0);
        let n1 = {
            let mut fields = no_fields();
            push_field(
                &mut fields,
                field_defaulted(
                    "child",
                    opt_text_list_or_entity_node(),
                    Instance::Absent,
                    Omit::IfAbsent,
                ),
            );
            push_field(
                &mut fields,
                field_defaulted(
                    "parent",
                    opt_text_list_or_entity_node(),
                    Instance::Absent,
                    Omit::IfAbsent,
                ),
            );
            push_field(
                &mut fields,
                field_defaulted(
                    "partner",
                    opt_text_list_or_entity_node(),
                    Instance::Absent,
                    Omit::IfAbsent,
                ),
            );
            push_field(
                &mut fields,
                field_defaulted(
                    "player",
                    opt_text_list_or_entity_node(),
                    Instance::Absent,
                    Omit::IfAbsent,
                ),
            );
            Node::Record(fields)
        };
        push_branch(&mut branches, "minecraft:bred_animals", n1);
        let n2 = {
            let mut fields = no_fields();
            push_field(
                &mut fields,
                field_defaulted("location", opt_location_node(), Instance::Absent, Omit::IfAbsent),
            );
            push_field(
                &mut fields,
                field_defaulted(
                    "player",
                    opt_text_list_or_entity_node(),
                    Instance::Absent,
                    Omit::IfAbsent,
                ),
            );
            Node::Record(fields)
        };
        push_branch(&mut branches, "minecraft:slept_in_bed", n2);
        Node::Tagged { tag: word("trigger"), content: Some(word("conditions")), branches }
    }

    /// This value in generic form.
    pub fn to_instance(&self) -> (x: Instance)
        ensures
            x@ == self.datum(),
    {
        match self {
            Criterion::BeeNestDestroyed { block, item, num_bees_inside, player } => {
                let mut values = no_values();
                push_value(&mut values, opt_text_to(block));
                push_value(&mut values, opt_item_to(item));
                push_value(&mut values, opt_int_to(num_bees_inside));
                push_value(&mut values, opt_text_list_or_entity_to(player));
                let payload = Instance::Record(values);
                assert(payload@ == Datum::Record(data(values@)));
                Instance::Variant(0, Box::new(payload))
            },
            Criterion::BredAnimals { child, parent, partner, player } => {
                let mut values = no_values();
                push_value(&mut values, opt_text_list_or_entity_to(child));
                push_value(&mut values, opt_text_list_or_entity_to(parent));
                push_value(&mut values, opt_text_list_or_entity_to(partner));
                push_value(&mut values, opt_text_list_or_entity_to(player));
                let payload = Instance::Record(values);
                assert(payload@ == Datum::Record(data(values@)));
                Instance::Variant(1, Box::new(payload))
            },
            Criterion::SleptInBed { location, player } => {
                let mut values = no_values();
                push_value(&mut values, opt_location_to(location));
                push_value(&mut values, opt_text_list_or_entity_to(player));
                let payload = Instance::Record(values);
                assert(payload@ == Datum::Record(data(values@)));
                Instance::Variant(2, Box::new(payload))
            },
        }
    }

    /// The value that an instance stands for, if it stands for one.
    pub fn from_instance(x: &Instance) -> (r: Option<Criterion>)
        ensures
            match r {
                Some(t) => t.datum() == x@,
                None => !Self::valid(x@),
            },
    {
        match x {
            Instance::Variant(i, y) => match *i {
                0 => match &**y {
                    Instance::Record(values) => {
                        assert(y.model() == Datum::Record(data(values@)));
                        if values.len() != 4 {
                            return None;
                        }
                        let f0 = match opt_text_from(&values[0]) {
                            Some(v) => v,
                            None => {
                                assert(data(values@)[0] == values[0]@);
                                return None;
                            },
                        };
                        let f1 = match opt_item_from(&values[1]) {
                            Some(v) => v,
                            None => {
                                assert(data(values@)[1] == values[1]@);
                                return None;
                            },
                        };
                        let f2 = match opt_int_from(&values[2]) {
                            Some(v) => v,
                            None => {
                                assert(data(values@)[2] == values[2]@);
                                return None;
                            },
                        };
                        let f3 = match opt_text_list_or_entity_from(&values[3]) {
                            Some(v) => v,
                            None => {
                                assert(data(values@)[3] == values[3]@);
                                return None;
                            },
                        };
                        let t = Criterion::BeeNestDestroyed { block: f0, item: f1, num_bees_inside: f2, player: f3 };
                        assert(
                            data(values@) =~= Seq::empty()
                                .push(opt_text_datum(f0))
                                .push(opt_item_datum(f1))
                                .push(opt_int_datum(f2))
                                .push(opt_text_list_or_entity_datum(f3))
                        );
                        Some(t)
                    },
                    _ => None,
                },
                1 => match &**y {
                    Instance::Record(values) => {
                        assert(y.model() == Datum::Record(data(values@)));
                        if values.len() != 4 {
                            return None;
                        }
                        let f0 = match opt_text_list_or_entity_from(&values[0]) {
                            Some(v) => v,
                            None => {
                                assert(data(values@)[0] == values[0]@);
                                return None;
                            },
                        };
                        let f1 = match opt_text_list_or_entity_from(&values[1]) {
                            Some(v) => v,
                            None => {
                                assert(data(values@)[1] == values[1]@);
                                return None;
                            },
                        };
                        let f2 = match opt_text_list_or_entity_from(&values[2]) {
                            Some(v) => v,
                            None => {
                                assert(data(values@)[2] == values[2]@);
                                return None;
                            },
                        };
                        let f3 = match opt_text_list_or_entity_from(&values[3]) {
                            Some(v) => v,
                            None => {
                                assert(data(values@)[3] == values[3]@);
                                return None;
                            },
                        };
                        let t = Criterion::BredAnimals { child: f0, parent: f1, partner: f2, player: f3 };
                        assert(
                            data(values@) =~= Seq::empty()
                                .push(opt_text_list_or_entity_datum(f0))
                                .push(opt_text_list_or_entity_datum(f1))
                                .push(opt_text_list_or_entity_datum(f2))
                                .push(opt_text_list_or_entity_datum(f3))
                        );
                        Some(t)
                    },
                    _ => None,
                },
                2 => match &**y {
                    Instance::Record(values) => {
                        assert(y.model() == Datum::Record(data(values@)));
                        if values.len() != 2 {
                            return None;
                        }
                        let f0 = match opt_location_from(&values[0]) {
                            Some(v) => v,
                            None => {
                                assert(data(values@)[0] == values[0]@);
                                return None;
                            },
                        };
                        let f1 = match opt_text_list_or_entity_from(&values[1]) {
                            Some(v) => v,
                            None => {
                                assert(data(values@)[1] == values[1]@);
                                return None;
                            },
                        };
                        let t = Criterion::SleptInBed { location: f0, player: f1 };
                        assert(
                            data(values@) =~= Seq::empty().push(opt_location_datum(f0)).push(
                                opt_text_list_or_entity_datum(f1)
                            )
                        );
                        Some(t)
                    },
                    _ => None,
                },
                _ => None,
            },
            _ => None,
        }
    }

    /// The reference to the definition of this type.
    pub open spec fn shape() -> Shape {
        Shape::Ref(CRITERION as nat)
    }

    /// The node that refers to the definition of this type.
    pub fn node() -> (n: Node)
        ensures
            n.shape() == Self::shape(),
    {
        Node::Ref(CRITERION)
    }

    /// Every value of this type is a value of its shape.
    pub proof fn lemma_conforms(&self, level: nat)
        ensures
            conforms(catalog(), level, Self::def_shape(), self.datum()),
            conforms(catalog(), catalog().len(), Self::shape(), self.datum()),
    {
        lemma_catalog();
        self.lemma_conforms_def(CRITERION as nat);
        lemma_ref(catalog(), CRITERION as nat, self.datum());
        self.lemma_conforms_def(level);
    }

    /// Every value of the shape of this type is the model of one of its values.
    pub proof fn lemma_fits(d: Datum, level: nat)
        requires
            conforms(catalog(), level, Self::def_shape(), d) || conforms(
                catalog(),
                level,
                Self::shape(),
                d,
            ),
        ensures
            Self::valid(d),
    {
        lemma_catalog();
        if conforms(catalog(), level, Self::def_shape(), d) {
            Self::lemma_fits_def(d, level);
        } else {
            lemma_unref(catalog(), level, CRITERION as nat, d);
            Self::lemma_fits_def(d, CRITERION as nat);
        }
    }

    proof fn lemma_conforms_def(&self, level: nat)
        ensures
            conforms(catalog(), level, Self::def_shape(), self.datum()),
    {
        reveal(Criterion::def_shape);
        match self {
            Criterion::BeeNestDestroyed { block, item, num_bees_inside, player } => {
                assert(Self::branches()[0].1 == Shape::Record(Self::bee_nest_destroyed_fields()));
                let fs0 = Seq::<FieldShape>::empty();
                let vs0 = Seq::<Datum>::empty();
                lemma_no_fields(catalog(), catalog().len());
                opt_text_conforms((*block), catalog().len());
                lemma_more_fields(
                    catalog(),
                    catalog().len(),
                    fs0,
                    vs0,
                    defaulted("block"@, opt_text_shape(), Datum::Absent, Omit::IfAbsent),
                    opt_text_datum(*block),
                );
                let fs1 = fs0.push(
                    defaulted("block"@, opt_text_shape(), Datum::Absent, Omit::IfAbsent)
                );
                let vs1 = vs0.push(opt_text_datum(*block));
                opt_item_conforms((*item), catalog().len());
                lemma_more_fields(
                    catalog(),
                    catalog().len(),
                    fs1,
                    vs1,
                    defaulted("item"@, opt_item_shape(), Datum::Absent, Omit::IfAbsent),
                    opt_item_datum(*item),
                );
                let fs2 = fs1.push(
                    defaulted("item"@, opt_item_shape(), Datum::Absent, Omit::IfAbsent)
                );
                let vs2 = vs1.push(opt_item_datum(*item));
                opt_int_conforms((*num_bees_inside), catalog().len());
                lemma_more_fields(
                    catalog(),
                    catalog().len(),
                    fs2,
                    vs2,
                    defaulted("num_bees_inside"@, opt_int_shape(), Datum::Absent, Omit::IfAbsent),
                    opt_int_datum(*num_bees_inside),
                );
                let fs3 = fs2.push(
                    defaulted("num_bees_inside"@, opt_int_shape(), Datum::Absent, Omit::IfAbsent)
                );
                let vs3 = vs2.push(opt_int_datum(*num_bees_inside));
                opt_text_list_or_entity_conforms((*player), catalog().len());
                lemma_more_fields(
                    catalog(),
                    catalog().len(),
                    fs3,
                    vs3,
                    defaulted(
                        "player"@,
                        opt_text_list_or_entity_shape(),
                        Datum::Absent,
                        Omit::IfAbsent,
                    ),
                    opt_text_list_or_entity_datum(*player),
                );
                let fs4 = fs3.push(
                    defaulted(
                        "player"@,
                        opt_text_list_or_entity_shape(),
                        Datum::Absent,
                        Omit::IfAbsent,
                    )
                );
                let vs4 = vs3.push(opt_text_list_or_entity_datum(*player));
                lemma_record(catalog(), catalog().len(), fs4, vs4);
            },
            Criterion::BredAnimals { child, parent, partner, player } => {
                assert(Self::branches()[1].1 == Shape::Record(Self::bred_animals_fields()));
                let fs0 = Seq::<FieldShape>::empty();
                let vs0 = Seq::<Datum>::empty();
                lemma_no_fields(catalog(), catalog().len());
                opt_text_list_or_entity_conforms((*child), catalog().len());
                lemma_more_fields(
                    catalog(),
                    catalog().len(),
                    fs0,
                    vs0,
                    defaulted(
                        "child"@,
                        opt_text_list_or_entity_shape(),
                        Datum::Absent,
                        Omit::IfAbsent,
                    ),
                    opt_text_list_or_entity_datum(*child),
                );
                let fs1 = fs0.push(
                    defaulted(
                        "child"@,
                        opt_text_list_or_entity_shape(),
                        Datum::Absent,
                        Omit::IfAbsent,
                    )
                );
                let vs1 = vs0.push(opt_text_list_or_entity_datum(*child));
                opt_text_list_or_entity_conforms((*parent), catalog().len());
                lemma_more_fields(
                    catalog(),
                    catalog().len(),
                    fs1,
                    vs1,
                    defaulted(
                        "parent"@,
                        opt_text_list_or_entity_shape(),
                        Datum::Absent,
                        Omit::IfAbsent,
                    ),
                    opt_text_list_or_entity_datum(*parent),
                );
                let fs2 = fs1.push(
                    defaulted(
                        "parent"@,
                        opt_text_list_or_entity_shape(),
                        Datum::Absent,
                        Omit::IfAbsent,
                    )
                );
                let vs2 = vs1.push(opt_text_list_or_entity_datum(*parent));
                opt_text_list_or_entity_conforms((*partner), catalog().len());
                lemma_more_fields(
                    catalog(),
                    catalog().len(),
                    fs2,
                    vs2,
                    defaulted(
                        "partner"@,
                        opt_text_list_or_entity_shape(),
                        Datum::Absent,
                        Omit::IfAbsent,
                    ),
                    opt_text_list_or_entity_datum(*partner),
                );
                let fs3 = fs2.push(
                    defaulted(
                        "partner"@,
                        opt_text_list_or_entity_shape(),
                        Datum::Absent,
                        Omit::IfAbsent,
                    )
                );
                let vs3 = vs2.push(opt_text_list_or_entity_datum(*partner));
                opt_text_list_or_entity_conforms((*player), catalog().len());
                lemma_more_fields(
                    catalog(),
                    catalog().len(),
                    fs3,
                    vs3,
                    defaulted(
                        "player"@,
                        opt_text_list_or_entity_shape(),
                        Datum::Absent,
                        Omit::IfAbsent,
                    ),
                    opt_text_list_or_entity_datum(*player),
                );
                let fs4 = fs3.push(
                    defaulted(
                        "player"@,
                        opt_text_list_or_entity_shape(),
                        Datum::Absent,
                        Omit::IfAbsent,
                    )
                );
                let vs4 = vs3.push(opt_text_list_or_entity_datum(*player));
                lemma_record(catalog(), catalog().len(), fs4, vs4);
            },
            Criterion::SleptInBed { location, player } => {
                assert(Self::branches()[2].1 == Shape::Record(Self::slept_in_bed_fields()));
                let fs0 = Seq::<FieldShape>::empty();
                let vs0 = Seq::<Datum>::empty();
                lemma_no_fields(catalog(), catalog().len());
                opt_location_conforms((*location), catalog().len());
                lemma_more_fields(
                    catalog(),
                    catalog().len(),
                    fs0,
                    vs0,
                    defaulted("location"@, opt_location_shape(), Datum::Absent, Omit::IfAbsent),
                    opt_location_datum(*location),
                );
                let fs1 = fs0.push(
                    defaulted("location"@, opt_location_shape(), Datum::Absent, Omit::IfAbsent)
                );
                let vs1 = vs0.push(opt_location_datum(*location));
                opt_text_list_or_entity_conforms((*player), catalog().len());
                lemma_more_fields(
                    catalog(),
                    catalog().len(),
                    fs1,
                    vs1,
                    defaulted(
                        "player"@,
                        opt_text_list_or_entity_shape(),
                        Datum::Absent,
                        Omit::IfAbsent,
                    ),
                    opt_text_list_or_entity_datum(*player),
                );
                let fs2 = fs1.push(
                    defaulted(
                        "player"@,
                        opt_text_list_or_entity_shape(),
                        Datum::Absent,
                        Omit::IfAbsent,
                    )
                );
                let vs2 = vs1.push(opt_text_list_or_entity_datum(*player));
                lemma_record(catalog(), catalog().len(), fs2, vs2);
            },
        }
    }

    proof fn lemma_fits_def(d: Datum, level: nat)
        requires
            conforms(catalog(), level, Self::def_shape(), d),
        ensures
            Self::valid(d),
    {
        reveal(Criterion::def_shape);
        let i = d->Variant_0;
        let y = *d->Variant_1;
        if i == 0 {
            assert(Self::branches()[0].1 == Shape::Record(Self::bee_nest_destroyed_fields()));
            assert(
                conforms(
                    catalog(),
                    catalog().len(),
                    Shape::Record(Self::bee_nest_destroyed_fields()),
                    y,
                )
            );
            let fields = Self::bee_nest_destroyed_fields();
            let vs = y->Record_0;
            lemma_field(catalog(), catalog().len(), fields, y, 0);
            assert(
                fields[0] == defaulted("block"@, opt_text_shape(), Datum::Absent, Omit::IfAbsent)
            );
            opt_text_fits(vs[0], catalog().len());
            lemma_field(catalog(), catalog().len(), fields, y, 1);
            assert(
                fields[1] == defaulted("item"@, opt_item_shape(), Datum::Absent, Omit::IfAbsent)
            );
            opt_item_fits(vs[1], catalog().len());
            lemma_field(catalog(), catalog().len(), fields, y, 2);
            assert(
                fields[2] == defaulted(
                    "num_bees_inside"@,
                    opt_int_shape(),
                    Datum::Absent,
                    Omit::IfAbsent,
                )
            );
            opt_int_fits(vs[2], catalog().len());
            lemma_field(catalog(), catalog().len(), fields, y, 3);
            assert(
                fields[3] == defaulted(
                    "player"@,
                    opt_text_list_or_entity_shape(),
                    Datum::Absent,
                    Omit::IfAbsent,
                )
            );
            opt_text_list_or_entity_fits(vs[3], catalog().len());
        } else if i == 1 {
            assert(Self::branches()[1].1 == Shape::Record(Self::bred_animals_fields()));
            assert(
                conforms(catalog(), catalog().len(), Shape::Record(Self::bred_animals_fields()), y)
            );
            let fields = Self::bred_animals_fields();
            let vs = y->Record_0;
            lemma_field(catalog(), catalog().len(), fields, y, 0);
            assert(
                fields[0] == defaulted(
                    "child"@,
                    opt_text_list_or_entity_shape(),
                    Datum::Absent,
                    Omit::IfAbsent,
                )
            );
            opt_text_list_or_entity_fits(vs[0], catalog().len());
            lemma_field(catalog(), catalog().len(), fields, y, 1);
            assert(
                fields[1] == defaulted(
                    "parent"@,
                    opt_text_list_or_entity_shape(),
                    Datum::Absent,
                    Omit::IfAbsent,
                )
            );
            opt_text_list_or_entity_fits(vs[1], catalog().len());
            lemma_field(catalog(), catalog().len(), fields, y, 2);
            assert(
                fields[2] == defaulted(
                    "partner"@,
                    opt_text_list_or_entity_shape(),
                    Datum::Absent,
                    Omit::IfAbsent,
                )
            );
            opt_text_list_or_entity_fits(vs[2], catalog().len());
            lemma_field(catalog(), catalog().len(), fields, y, 3);
            assert(
                fields[3] == defaulted(
                    "player"@,
                    opt_text_list_or_entity_shape(),
                    Datum::Absent,
                    Omit::IfAbsent,
                )
            );
            opt_text_list_or_entity_fits(vs[3], catalog().len());
        } else if i == 2 {
            assert(Self::branches()[2].1 == Shape::Record(Self::slept_in_bed_fields()));
            assert(
                conforms(catalog(), catalog().len(), Shape::Record(Self::slept_in_bed_fields()), y)
            );
            let fields = Self::slept_in_bed_fields();
            let vs = y->Record_0;
            lemma_field(catalog(), catalog().len(), fields, y, 0);
            assert(
                fields[0] == defaulted(
                    "location"@,
                    opt_location_shape(),
                    Datum::Absent,
                    Omit::IfAbsent,
                )
            );
            opt_location_fits(vs[0], catalog().len());
            lemma_field(catalog(), catalog().len(), fields, y, 1);
            assert(
                fields[1] == defaulted(
                    "player"@,
                    opt_text_list_or_entity_shape(),
                    Datum::Absent,
                    Omit::IfAbsent,
                )
            );
            opt_text_list_or_entity_fits(vs[1], catalog().len());
        }
    }

    /// Every value of this type can be written and read back as itself.
    pub proof fn lemma_legal(&self, level: nat)
        ensures
            legal(catalog(), level, Self::def_shape(), self.datum()),
            legal(catalog(), catalog().len(), Self::shape(), self.datum()),
            encode_spec(catalog(), level, Self::def_shape(), self.datum()) is Object,
            encode_spec(catalog(), catalog().len(), Self::shape(), self.datum()) is Object,
    {
        lemma_catalog();
        self.lemma_legal_def(CRITERION as nat);
        lemma_written_by_reference(catalog(), catalog().len(), CRITERION as nat, self.datum());
        self.lemma_legal_def(level);
    }

    proof fn lemma_legal_def(&self, level: nat)
        ensures
            legal(catalog(), level, Self::def_shape(), self.datum()),
            encode_spec(catalog(), level, Self::def_shape(), self.datum()) is Object,
    {
        reveal(Criterion::def_shape);
        match self {
            Criterion::BeeNestDestroyed { block, item, num_bees_inside, player } => {
                assert(Self::branches()[0].1 == Shape::Record(Self::bee_nest_destroyed_fields()));
                let fs0 = Seq::<FieldShape>::empty();
                let vs0 = Seq::<Datum>::empty();
                lemma_no_fields_legal(catalog(), catalog().len());
                opt_text_legal((*block), catalog().len());
                lemma_more_fields_legal(
                    catalog(),
                    catalog().len(),
                    fs0,
                    vs0,
                    defaulted("block"@, opt_text_shape(), Datum::Absent, Omit::IfAbsent),
                    opt_text_datum(*block),
                );
                let fs1 = fs0.push(
                    defaulted("block"@, opt_text_shape(), Datum::Absent, Omit::IfAbsent)
                );
                let vs1 = vs0.push(opt_text_datum(*block));
                opt_item_legal((*item), catalog().len());
                lemma_more_fields_legal(
                    catalog(),
                    catalog().len(),
                    fs1,
                    vs1,
                    defaulted("item"@, opt_item_shape(), Datum::Absent, Omit::IfAbsent),
                    opt_item_datum(*item),
                );
                let fs2 = fs1.push(
                    defaulted("item"@, opt_item_shape(), Datum::Absent, Omit::IfAbsent)
                );
                let vs2 = vs1.push(opt_item_datum(*item));
                opt_int_legal((*num_bees_inside), catalog().len());
                lemma_more_fields_legal(
                    catalog(),
                    catalog().len(),
                    fs2,
                    vs2,
                    defaulted("num_bees_inside"@, opt_int_shape(), Datum::Absent, Omit::IfAbsent),
                    opt_int_datum(*num_bees_inside),
                );
                let fs3 = fs2.push(
                    defaulted("num_bees_inside"@, opt_int_shape(), Datum::Absent, Omit::IfAbsent)
                );
                let vs3 = vs2.push(opt_int_datum(*num_bees_inside));
                opt_text_list_or_entity_legal((*player), catalog().len());
                lemma_more_fields_legal(
                    catalog(),
                    catalog().len(),
                    fs3,
                    vs3,
                    defaulted(
                        "player"@,
                        opt_text_list_or_entity_shape(),
                        Datum::Absent,
                        Omit::IfAbsent,
                    ),
                    opt_text_list_or_entity_datum(*player),
                );
                let fs4 = fs3.push(
                    defaulted(
                        "player"@,
                        opt_text_list_or_entity_shape(),
                        Datum::Absent,
                        Omit::IfAbsent,
                    )
                );
                let vs4 = vs3.push(opt_text_list_or_entity_datum(*player));
                lemma_record_legal(catalog(), catalog().len(), fs4, vs4);
            },
            Criterion::BredAnimals { child, parent, partner, player } => {
                assert(Self::branches()[1].1 == Shape::Record(Self::bred_animals_fields()));
                let fs0 = Seq::<FieldShape>::empty();
                let vs0 = Seq::<Datum>::empty();
                lemma_no_fields_legal(catalog(), catalog().len());
                opt_text_list_or_entity_legal((*child), catalog().len());
                lemma_more_fields_legal(
                    catalog(),
                    catalog().len(),
                    fs0,
                    vs0,
                    defaulted(
                        "child"@,
                        opt_text_list_or_entity_shape(),
                        Datum::Absent,
                        Omit::IfAbsent,
                    ),
                    opt_text_list_or_entity_datum(*child),
                );
                let fs1 = fs0.push(
                    defaulted(
                        "child"@,
                        opt_text_list_or_entity_shape(),
                        Datum::Absent,
                        Omit::IfAbsent,
                    )
                );
                let vs1 = vs0.push(opt_text_list_or_entity_datum(*child));
                opt_text_list_or_entity_legal((*parent), catalog().len());
                lemma_more_fields_legal(
                    catalog(),
                    catalog().len(),
                    fs1,
                    vs1,
                    defaulted(
                        "parent"@,
                        opt_text_list_or_entity_shape(),
                        Datum::Absent,
                        Omit::IfAbsent,
                    ),
                    opt_text_list_or_entity_datum(*parent),
                );
                let fs2 = fs1.push(
                    defaulted(
                        "parent"@,
                        opt_text_list_or_entity_shape(),
                        Datum::Absent,
                        Omit::IfAbsent,
                    )
                );
                let vs2 = vs1.push(opt_text_list_or_entity_datum(*parent));
                opt_text_list_or_entity_legal((*partner), catalog().len());
                lemma_more_fields_legal(
                    catalog(),
                    catalog().len(),
                    fs2,
                    vs2,
                    defaulted(
                        "partner"@,
                        opt_text_list_or_entity_shape(),
                        Datum::Absent,
                        Omit::IfAbsent,
                    ),
                    opt_text_list_or_entity_datum(*partner),
                );
                let fs3 = fs2.push(
                    defaulted(
                        "partner"@,
                        opt_text_list_or_entity_shape(),
                        Datum::Absent,
                        Omit::IfAbsent,
                    )
                );
                let vs3 = vs2.push(opt_text_list_or_entity_datum(*partner));
                opt_text_list_or_entity_legal((*player), catalog().len());
                lemma_more_fields_legal(
                    catalog(),
                    catalog().len(),
                    fs3,
                    vs3,
                    defaulted(
                        "player"@,
                        opt_text_list_or_entity_shape(),
                        Datum::Absent,
                        Omit::IfAbsent,
                    ),
                    opt_text_list_or_entity_datum(*player),
                );
                let fs4 = fs3.push(
                    defaulted(
                        "player"@,
                        opt_text_list_or_entity_shape(),
                        Datum::Absent,
                        Omit::IfAbsent,
                    )
                );
                let vs4 = vs3.push(opt_text_list_or_entity_datum(*player));
                lemma_record_legal(catalog(), catalog().len(), fs4, vs4);
            },
            Criterion::SleptInBed { location, player } => {
                assert(Self::branches()[2].1 == Shape::Record(Self::slept_in_bed_fields()));
                let fs0 = Seq::<FieldShape>::empty();
                let vs0 = Seq::<Datum>::empty();
                lemma_no_fields_legal(catalog(), catalog().len());
                opt_location_legal((*location), catalog().len());
                lemma_more_fields_legal(
                    catalog(),
                    catalog().len(),
                    fs0,
                    vs0,
                    defaulted("location"@, opt_location_shape(), Datum::Absent, Omit::IfAbsent),
                    opt_location_datum(*location),
                );
                let fs1 = fs0.push(
                    defaulted("location"@, opt_location_shape(), Datum::Absent, Omit::IfAbsent)
                );
                let vs1 = vs0.push(opt_location_datum(*location));
                opt_text_list_or_entity_legal((*player), catalog().len());
                lemma_more_fields_legal(
                    catalog(),
                    catalog().len(),
                    fs1,
                    vs1,
                    defaulted(
                        "player"@,
                        opt_text_list_or_entity_shape(),
                        Datum::Absent,
                        Omit::IfAbsent,
                    ),
                    opt_text_list_or_entity_datum(*player),
                );
                let fs2 = fs1.push(
                    defaulted(
                        "player"@,
                        opt_text_list_or_entity_shape(),
                        Datum::Absent,
                        Omit::IfAbsent,
                    )
                );
                let vs2 = vs1.push(opt_text_list_or_entity_datum(*player));
                lemma_record_legal(catalog(), catalog().len(), fs2, vs2);
            },
        }
    }
}

/// What the player gets when an advancement is done.
#[derive(Debug, PartialEq, Eq)]
pub struct Rewards {
    pub recipes: Vec<String>,
    pub loot: Vec<String>,
    pub experience: i64,
    pub function: Option<String>,
}

impl Rewards {
    /// The model of this value.
    pub open spec fn datum(&self) -> Datum {
        Datum::Record(
            Seq::empty()
                .push(text_list_datum(self.recipes))
                .push(text_list_datum(self.loot))
                .push(Datum::Int(self.experience))
                .push(opt_text_datum(self.function)),
        )
    }

    /// Whether `d` is the model of a value of this type.
    pub open spec fn valid(d: Datum) -> bool {
        &&& d matches Datum::Record(vs)
        &&& vs.len() == 4
        &&& text_list_valid(vs[0])
        &&& text_list_valid(vs[1])
        &&& vs[2] is Int
        &&& opt_text_valid(vs[3])
    }

    /// The fields of this type, in declaration order.
    pub open spec fn fields() -> Seq<FieldShape> {
        Seq::empty()
            .push(
                defaulted("recipes"@, text_list_shape(), Datum::List(Seq::empty()), Omit::IfEmpty)
            )
            .push(defaulted("loot"@, text_list_shape(), Datum::List(Seq::empty()), Omit::IfEmpty))
            .push(defaulted("experience"@, Shape::Int, Datum::Int(0), Omit::IfDefault))
            .push(defaulted("function"@, opt_text_shape(), Datum::Absent, Omit::IfAbsent))
    }

    /// The shape of the documents of this type.
    #[verifier::opaque]
    pub open spec fn def_shape() -> Shape {
        Shape::Record(Self::fields())
    }

    /// The node of the documents of this type.
    pub fn def_node() -> (n: Node)
        ensures
            n.shape() == Self::def_shape(),
    {
        reveal(Rewards::def_shape);
        let mut fields = no_fields();
        push_field(
            &mut fields,
            field_defaulted("recipes", text_list_node(), empty_list(), Omit::IfEmpty),
        );
        push_field(
            &mut fields,
            field_defaulted("loot", text_list_node(), empty_list(), Omit::IfEmpty),
        );
        push_field(
            &mut fields,
            field_defaulted("experience", int_node(), int_to(&0), Omit::IfDefault),
        );
        push_field(
            &mut fields,
            field_defaulted("function", opt_text_node(), Instance::Absent, Omit::IfAbsent),
        );
        Node::Record(fields)
    }

    /// This value in generic form.
    pub fn to_instance(&self) -> (x: Instance)
        ensures
            x@ == self.datum(),
    {
        let mut values = no_values();
        push_value(&mut values, text_list_to(&self.recipes));
        push_value(&mut values, text_list_to(&self.loot));
        push_value(&mut values, int_to(&self.experience));
        push_value(&mut values, opt_text_to(&self.function));
        Instance::Record(values)
    }

    /// The value that an instance stands for, if it stands for one.
    pub fn from_instance(x: &Instance) -> (r: Option<Rewards>)
        ensures
            match r {
                Some(t) => t.datum() == x@,
                None => !Self::valid(x@),
            },
    {
        match x {
            Instance::Record(values) => {
                assert(x@->Record_0 == data(values@));
                if values.len() != 4 {
                    return None;
                }
                let f0 = match text_list_from(&values[0]) {
                    Some(v) => v,
                    None => {
                        assert(data(values@)[0] == values[0]@);
                        return None;
                    },
                };
                let f1 = match text_list_from(&values[1]) {
                    Some(v) => v,
                    None => {
                        assert(data(values@)[1] == values[1]@);
                        return None;
                    },
                };
                let f2 = match int_from(&values[2]) {
                    Some(v) => v,
                    None => {
                        assert(data(values@)[2] == values[2]@);
                        return None;
                    },
                };
                let f3 = match opt_text_from(&values[3]) {
                    Some(v) => v,
                    None => {
                        assert(data(values@)[3] == values[3]@);
                        return None;
                    },
                };
                let t = Rewards { recipes: f0, loot: f1, experience: f2, function: f3 };
                assert(
                    data(values@) =~= Seq::empty()
                        .push(text_list_datum(t.recipes))
                        .push(text_list_datum(t.loot))
                        .push(Datum::Int(t.experience))
                        .push(opt_text_datum(t.function))
                );
                Some(t)
            },
            _ => None,
        }
    }

    /// The reference to the definition of this type.
    pub open spec fn shape() -> Shape {
        Shape::Ref(REWARDS as nat)
    }

    /// The node that refers to the definition of this type.
    pub fn node() -> (n: Node)
        ensures
            n.shape() == Self::shape(),
    {
        Node::Ref(REWARDS)
    }

    /// Every value of this type is a value of its shape.
    pub proof fn lemma_conforms(&self, level: nat)
        ensures
            conforms(catalog(), level, Self::def_shape(), self.datum()),
            conforms(catalog(), catalog().len(), Self::shape(), self.datum()),
    {
        lemma_catalog();
        self.lemma_conforms_def(REWARDS as nat);
        lemma_ref(catalog(), REWARDS as nat, self.datum());
        self.lemma_conforms_def(level);
    }

    /// Every value of the shape of this type is the model of one of its values.
    pub proof fn lemma_fits(d: Datum, level: nat)
        requires
            conforms(catalog(), level, Self::def_shape(), d) || conforms(
                catalog(),
                level,
                Self::shape(),
                d,
            ),
        ensures
            Self::valid(d),
    {
        lemma_catalog();
        if conforms(catalog(), level, Self::def_shape(), d) {
            Self::lemma_fits_def(d, level);
        } else {
            lemma_unref(catalog(), level, REWARDS as nat, d);
            Self::lemma_fits_def(d, REWARDS as nat);
        }
    }

    proof fn lemma_conforms_def(&self, level: nat)
        ensures
            conforms(catalog(), level, Self::def_shape(), self.datum()),
    {
        reveal(Rewards::def_shape);
        let fs0 = Seq::<FieldShape>::empty();
        let vs0 = Seq::<Datum>::empty();
        lemma_no_fields(catalog(), level);
        text_list_conforms(self.recipes, catalog().len());
        lemma_more_fields(
            catalog(),
            level,
            fs0,
            vs0,
            defaulted("recipes"@, text_list_shape(), Datum::List(Seq::empty()), Omit::IfEmpty),
            text_list_datum(self.recipes),
        );
        let fs1 = fs0.push(
            defaulted("recipes"@, text_list_shape(), Datum::List(Seq::empty()), Omit::IfEmpty)
        );
        let vs1 = vs0.push(text_list_datum(self.recipes));
        text_list_conforms(self.loot, catalog().len());
        lemma_more_fields(
            catalog(),
            level,
            fs1,
            vs1,
            defaulted("loot"@, text_list_shape(), Datum::List(Seq::empty()), Omit::IfEmpty),
            text_list_datum(self.loot),
        );
        let fs2 = fs1.push(
            defaulted("loot"@, text_list_shape(), Datum::List(Seq::empty()), Omit::IfEmpty)
        );
        let vs2 = vs1.push(text_list_datum(self.loot));
        lemma_plain(catalog(), catalog().len(), Datum::Int(self.experience));
        lemma_more_fields(
            catalog(),
            level,
            fs2,
            vs2,
            defaulted("experience"@, Shape::Int, Datum::Int(0), Omit::IfDefault),
            Datum::Int(self.experience),
        );
        let fs3 = fs2.push(defaulted("experience"@, Shape::Int, Datum::Int(0), Omit::IfDefault));
        let vs3 = vs2.push(Datum::Int(self.experience));
        opt_text_conforms(self.function, catalog().len());
        lemma_more_fields(
            catalog(),
            level,
            fs3,
            vs3,
            defaulted("function"@, opt_text_shape(), Datum::Absent, Omit::IfAbsent),
            opt_text_datum(self.function),
        );
        let fs4 = fs3.push(defaulted("function"@, opt_text_shape(), Datum::Absent, Omit::IfAbsent));
        let vs4 = vs3.push(opt_text_datum(self.function));
        lemma_record(catalog(), level, fs4, vs4);
    }

    proof fn lemma_fits_def(d: Datum, level: nat)
        requires
            conforms(catalog(), level, Self::def_shape(), d),
        ensures
            Self::valid(d),
    {
        reveal(Rewards::def_shape);
        let fields = Self::fields();
        let vs = d->Record_0;
        lemma_field(catalog(), level, fields, d, 0);
        assert(
            fields[0] == defaulted(
                "recipes"@,
                text_list_shape(),
                Datum::List(Seq::empty()),
                Omit::IfEmpty,
            )
        );
        text_list_fits(vs[0], catalog().len());
        lemma_field(catalog(), level, fields, d, 1);
        assert(
            fields[1] == defaulted(
                "loot"@,
                text_list_shape(),
                Datum::List(Seq::empty()),
                Omit::IfEmpty,
            )
        );
        text_list_fits(vs[1], catalog().len());
        lemma_field(catalog(), level, fields, d, 2);
        assert(fields[2] == defaulted("experience"@, Shape::Int, Datum::Int(0), Omit::IfDefault));
        lemma_plain(catalog(), catalog().len(), vs[2]);
        lemma_field(catalog(), level, fields, d, 3);
        assert(
            fields[3] == defaulted("function"@, opt_text_shape(), Datum::Absent, Omit::IfAbsent)
        );
        opt_text_fits(vs[3], catalog().len());
    }

    /// Every value of this type can be written and read back as itself.
    pub proof fn lemma_legal(&self, level: nat)
        ensures
            legal(catalog(), level, Self::def_shape(), self.datum()),
            legal(catalog(), catalog().len(), Self::shape(), self.datum()),
            encode_spec(catalog(), level, Self::def_shape(), self.datum()) is Object,
            encode_spec(catalog(), catalog().len(), Self::shape(), self.datum()) is Object,
    {
        lemma_catalog();
        self.lemma_legal_def(REWARDS as nat);
        lemma_written_by_reference(catalog(), catalog().len(), REWARDS as nat, self.datum());
        self.lemma_legal_def(level);
    }

    proof fn lemma_legal_def(&self, level: nat)
        ensures
            legal(catalog(), level, Self::def_shape(), self.datum()),
            encode_spec(catalog(), level, Self::def_shape(), self.datum()) is Object,
    {
        reveal(Rewards::def_shape);
        let fs0 = Seq::<FieldShape>::empty();
        let vs0 = Seq::<Datum>::empty();
        lemma_no_fields_legal(catalog(), level);
        text_list_legal(self.recipes, catalog().len());
        lemma_more_fields_legal(
            catalog(),
            level,
            fs0,
            vs0,
            defaulted("recipes"@, text_list_shape(), Datum::List(Seq::empty()), Omit::IfEmpty),
            text_list_datum(self.recipes),
        );
        let fs1 = fs0.push(
            defaulted("recipes"@, text_list_shape(), Datum::List(Seq::empty()), Omit::IfEmpty)
        );
        let vs1 = vs0.push(text_list_datum(self.recipes));
        text_list_legal(self.loot, catalog().len());
        lemma_more_fields_legal(
            catalog(),
            level,
            fs1,
            vs1,
            defaulted("loot"@, text_list_shape(), Datum::List(Seq::empty()), Omit::IfEmpty),
            text_list_datum(self.loot),
        );
        let fs2 = fs1.push(
            defaulted("loot"@, text_list_shape(), Datum::List(Seq::empty()), Omit::IfEmpty)
        );
        let vs2 = vs1.push(text_list_datum(self.loot));
        lemma_plain_legal(catalog(), catalog().len(), Datum::Int(self.experience));
        lemma_more_fields_legal(
            catalog(),
            level,
            fs2,
            vs2,
            defaulted("experience"@, Shape::Int, Datum::Int(0), Omit::IfDefault),
            Datum::Int(self.experience),
        );
        let fs3 = fs2.push(defaulted("experience"@, Shape::Int, Datum::Int(0), Omit::IfDefault));
        let vs3 = vs2.push(Datum::Int(self.experience));
        opt_text_legal(self.function, catalog().len());
        lemma_more_fields_legal(
            catalog(),
            level,
            fs3,
            vs3,
            defaulted("function"@, opt_text_shape(), Datum::Absent, Omit::IfAbsent),
            opt_text_datum(self.function),
        );
        let fs4 = fs3.push(defaulted("function"@, opt_text_shape(), Datum::Absent, Omit::IfAbsent));
        let vs4 = vs3.push(opt_text_datum(self.function));
        lemma_record_legal(catalog(), level, fs4, vs4);
    }
}

impl Rewards {
    /// The model of the default value of this type.
    pub open spec fn default_datum() -> Datum {
        Datum::Record(
            Seq::empty()
                .push(Datum::List(Seq::empty()))
                .push(Datum::List(Seq::empty()))
                .push(Datum::Int(0))
                .push(Datum::Absent),
        )
    }
}

impl Default for Rewards {
    fn default() -> (r: Rewards)
        ensures
            r.datum() == Rewards::default_datum(),
    {
        let r = Rewards { recipes: Vec::new(), loot: Vec::new(), experience: 0, function: None };
        assert(text_list_data(r.recipes@) =~= Seq::empty());
        assert(text_list_data(r.loot@) =~= Seq::empty());
        r
    }
}

/// A custom advancement of a data pack.
#[derive(Debug, PartialEq, Eq)]
pub struct Advancement {
    pub display: Option<Box<Display>>,
    pub parent: Option<String>,
    pub criteria: Vec<(String, Criterion)>,
    pub requirements: Vec<Vec<String>>,
    pub rewards: Option<Rewards>,
}

impl Advancement {
    /// The model of this value.
    pub open spec fn datum(&self) -> Datum {
        Datum::Record(
            Seq::empty()
                .push(opt_display_datum(self.display))
                .push(opt_text_datum(self.parent))
                .push(criterion_map_datum(self.criteria))
                .push(text_list_list_datum(self.requirements))
                .push(opt_rewards_datum(self.rewards)),
        )
    }

    /// Whether `d` is the model of a value of this type.
    pub open spec fn valid(d: Datum) -> bool {
        &&& d matches Datum::Record(vs)
        &&& vs.len() == 5
        &&& opt_display_valid(vs[0])
        &&& opt_text_valid(vs[1])
        &&& criterion_map_valid(vs[2])
        &&& text_list_list_valid(vs[3])
        &&& opt_rewards_valid(vs[4])
    }

    /// The fields of this type, in declaration order.
    pub open spec fn fields() -> Seq<FieldShape> {
        Seq::empty()
            .push(defaulted("display"@, opt_display_shape(), Datum::Absent, Omit::IfAbsent))
            .push(defaulted("parent"@, opt_text_shape(), Datum::Absent, Omit::IfAbsent))
            .push(required("criteria"@, criterion_map_shape()))
            .push(
                defaulted(
                    "requirements"@,
                    text_list_list_shape(),
                    Datum::List(Seq::empty()),
                    Omit::IfEmpty,
                )
            )
            .push(defaulted("rewards"@, opt_rewards_shape(), Datum::Absent, Omit::IfAbsent))
    }

    /// The shape of the documents of this type.
    #[verifier::opaque]
    pub open spec fn def_shape() -> Shape {
        Shape::Record(Self::fields())
    }

    /// The node of the documents of this type.
    pub fn def_node() -> (n: Node)
        ensures
            n.shape() == Self::def_shape(),
    {
        reveal(Advancement::def_shape);
        let mut fields = no_fields();
        push_field(
            &mut fields,
            field_defaulted("display", opt_display_node(), Instance::Absent, Omit::IfAbsent),
        );
        push_field(
            &mut fields,
            field_defaulted("parent", opt_text_node(), Instance::Absent, Omit::IfAbsent),
        );
        push_field(&mut fields, field_required("criteria", criterion_map_node()));
        push_field(
            &mut fields,
            field_defaulted("requirements", text_list_list_node(), empty_list(), Omit::IfEmpty),
        );
        push_field(
            &mut fields,
            field_defaulted("rewards", opt_rewards_node(), Instance::Absent, Omit::IfAbsent),
        );
        Node::Record(fields)
    }

    /// This value in generic form.
    pub fn to_instance(&self) -> (x: Instance)
        ensures
            x@ == self.datum(),
    {
        let mut values = no_values();
        push_value(&mut values, opt_display_to(&self.display));
        push_value(&mut values, opt_text_to(&self.parent));
        push_value(&mut values, criterion_map_to(&self.criteria));
        push_value(&mut values, text_list_list_to(&self.requirements));
        push_value(&mut values, opt_rewards_to(&self.rewards));
        Instance::Record(values)
    }

    /// The value that an instance stands for, if it stands for one.
    pub fn from_instance(x: &Instance) -> (r: Option<Advancement>)
        ensures
            match r {
                Some(t) => t.datum() == x@,
                None => !Self::valid(x@),
            },
    {
        match x {
            Instance::Record(values) => {
                assert(x@->Record_0 == data(values@));
                if values.len() != 5 {
                    return None;
                }
                let f0 = match opt_display_from(&values[0]) {
                    Some(v) => v,
                    None => {
                        assert(data(values@)[0] == values[0]@);
                        return None;
                    },
                };
                let f1 = match opt_text_from(&values[1]) {
                    Some(v) => v,
                    None => {
                        assert(data(values@)[1] == values[1]@);
                        return None;
                    },
                };
                let f2 = match criterion_map_from(&values[2]) {
                    Some(v) => v,
                    None => {
                        assert(data(values@)[2] == values[2]@);
                        return None;
                    },
                };
                let f3 = match text_list_list_from(&values[3]) {
                    Some(v) => v,
                    None => {
                        assert(data(values@)[3] == values[3]@);
                        return None;
                    },
                };
                let f4 = match opt_rewards_from(&values[4]) {
                    Some(v) => v,
                    None => {
                        assert(data(values@)[4] == values[4]@);
                        return None;
                    },
                };
                let t = Advancement { display: f0, parent: f1, criteria: f2, requirements: f3, rewards: f4 };
                assert(
                    data(values@) =~= Seq::empty()
                        .push(opt_display_datum(t.display))
                        .push(opt_text_datum(t.parent))
                        .push(criterion_map_datum(t.criteria))
                        .push(text_list_list_datum(t.requirements))
                        .push(opt_rewards_datum(t.rewards))
                );
                Some(t)
            },
            _ => None,
        }
    }

    /// The reference to the definition of this type.
    pub open spec fn shape() -> Shape {
        Shape::Ref(ADVANCEMENT as nat)
    }

    /// The node that refers to the definition of this type.
    pub fn node() -> (n: Node)
        ensures
            n.shape() == Self::shape(),
    {
        Node::Ref(ADVANCEMENT)
    }

    /// Every value of this type is a value of its shape.
    pub proof fn lemma_conforms(&self, level: nat)
        ensures
            conforms(catalog(), level, Self::def_shape(), self.datum()),
            conforms(catalog(), catalog().len(), Self::shape(), self.datum()),
    {
        lemma_catalog();
        self.lemma_conforms_def(ADVANCEMENT as nat);
        lemma_ref(catalog(), ADVANCEMENT as nat, self.datum());
        self.lemma_conforms_def(level);
    }

    /// Every value of the shape of this type is the model of one of its values.
    pub proof fn lemma_fits(d: Datum, level: nat)
        requires
            conforms(catalog(), level, Self::def_shape(), d) || conforms(
                catalog(),
                level,
                Self::shape(),
                d,
            ),
        ensures
            Self::valid(d),
    {
        lemma_catalog();
        if conforms(catalog(), level, Self::def_shape(), d) {
            Self::lemma_fits_def(d, level);
        } else {
            lemma_unref(catalog(), level, ADVANCEMENT as nat, d);
            Self::lemma_fits_def(d, ADVANCEMENT as nat);
        }
    }

    proof fn lemma_conforms_def(&self, level: nat)
        ensures
            conforms(catalog(), level, Self::def_shape(), self.datum()),
    {
        reveal(Advancement::def_shape);
        let fs0 = Seq::<FieldShape>::empty();
        let vs0 = Seq::<Datum>::empty();
        lemma_no_fields(catalog(), level);
        opt_display_conforms(self.display, catalog().len());
        lemma_more_fields(
            catalog(),
            level,
            fs0,
            vs0,
            defaulted("display"@, opt_display_shape(), Datum::Absent, Omit::IfAbsent),
            opt_display_datum(self.display),
        );
        let fs1 = fs0.push(
            defaulted("display"@, opt_display_shape(), Datum::Absent, Omit::IfAbsent)
        );
        let vs1 = vs0.push(opt_display_datum(self.display));
        opt_text_conforms(self.parent, catalog().len());
        lemma_more_fields(
            catalog(),
            level,
            fs1,
            vs1,
            defaulted("parent"@, opt_text_shape(), Datum::Absent, Omit::IfAbsent),
            opt_text_datum(self.parent),
        );
        let fs2 = fs1.push(defaulted("parent"@, opt_text_shape(), Datum::Absent, Omit::IfAbsent));
        let vs2 = vs1.push(opt_text_datum(self.parent));
        criterion_map_conforms(self.criteria, catalog().len());
        lemma_more_fields(
            catalog(),
            level,
            fs2,
            vs2,
            required("criteria"@, criterion_map_shape()),
            criterion_map_datum(self.criteria),
        );
        let fs3 = fs2.push(required("criteria"@, criterion_map_shape()));
        let vs3 = vs2.push(criterion_map_datum(self.criteria));
        text_list_list_conforms(self.requirements, catalog().len());
        lemma_more_fields(
            catalog(),
            level,
            fs3,
            vs3,
            defaulted(
                "requirements"@,
                text_list_list_shape(),
                Datum::List(Seq::empty()),
                Omit::IfEmpty,
            ),
            text_list_list_datum(self.requirements),
        );
        let fs4 = fs3.push(
            defaulted(
                "requirements"@,
                text_list_list_shape(),
                Datum::List(Seq::empty()),
                Omit::IfEmpty,
            )
        );
        let vs4 = vs3.push(text_list_list_datum(self.requirements));
        opt_rewards_conforms(self.rewards, catalog().len());
        lemma_more_fields(
            catalog(),
            level,
            fs4,
            vs4,
            defaulted("rewards"@, opt_rewards_shape(), Datum::Absent, Omit::IfAbsent),
            opt_rewards_datum(self.rewards),
        );
        let fs5 = fs4.push(
            defaulted("rewards"@, opt_rewards_shape(), Datum::Absent, Omit::IfAbsent)
        );
        let vs5 = vs4.push(opt_rewards_datum(self.rewards));
        lemma_record(catalog(), level, fs5, vs5);
    }

    proof fn lemma_fits_def(d: Datum, level: nat)
        requires
            conforms(catalog(), level, Self::def_shape(), d),
        ensures
            Self::valid(d),
    {
        reveal(Advancement::def_shape);
        let fields = Self::fields();
        let vs = d->Record_0;
        lemma_field(catalog(), level, fields, d, 0);
        assert(
            fields[0] == defaulted("display"@, opt_display_shape(), Datum::Absent, Omit::IfAbsent)
        );
        opt_display_fits(vs[0], catalog().len());
        lemma_field(catalog(), level, fields, d, 1);
        assert(fields[1] == defaulted("parent"@, opt_text_shape(), Datum::Absent, Omit::IfAbsent));
        opt_text_fits(vs[1], catalog().len());
        lemma_field(catalog(), level, fields, d, 2);
        assert(fields[2] == required("criteria"@, criterion_map_shape()));
        criterion_map_fits(vs[2], catalog().len());
        lemma_field(catalog(), level, fields, d, 3);
        assert(
            fields[3] == defaulted(
                "requirements"@,
                text_list_list_shape(),
                Datum::List(Seq::empty()),
                Omit::IfEmpty,
            )
        );
        text_list_list_fits(vs[3], catalog().len());
        lemma_field(catalog(), level, fields, d, 4);
        assert(
            fields[4] == defaulted("rewards"@, opt_rewards_shape(), Datum::Absent, Omit::IfAbsent)
        );
        opt_rewards_fits(vs[4], catalog().len());
    }

    /// Every value of this type can be written and read back as itself.
    pub proof fn lemma_legal(&self, level: nat)
        ensures
            legal(catalog(), level, Self::def_shape(), self.datum()),
            legal(catalog(), catalog().len(), Self::shape(), self.datum()),
            encode_spec(catalog(), level, Self::def_shape(), self.datum()) is Object,
            encode_spec(catalog(), catalog().len(), Self::shape(), self.datum()) is Object,
    {
        lemma_catalog();
        self.lemma_legal_def(ADVANCEMENT as nat);
        lemma_written_by_reference(catalog(), catalog().len(), ADVANCEMENT as nat, self.datum());
        self.lemma_legal_def(level);
    }

    proof fn lemma_legal_def(&self, level: nat)
        ensures
            legal(catalog(), level, Self::def_shape(), self.datum()),
            encode_spec(catalog(), level, Self::def_shape(), self.datum()) is Object,
    {
        reveal(Advancement::def_shape);
        let fs0 = Seq::<FieldShape>::empty();
        let vs0 = Seq::<Datum>::empty();
        lemma_no_fields_legal(catalog(), level);
        opt_display_legal(self.display, catalog().len());
        lemma_more_fields_legal(
            catalog(),
            level,
            fs0,
            vs0,
            defaulted("display"@, opt_display_shape(), Datum::Absent, Omit::IfAbsent),
            opt_display_datum(self.display),
        );
        let fs1 = fs0.push(
            defaulted("display"@, opt_display_shape(), Datum::Absent, Omit::IfAbsent)
        );
        let vs1 = vs0.push(opt_display_datum(self.display));
        opt_text_legal(self.parent, catalog().len());
        lemma_more_fields_legal(
            catalog(),
            level,
            fs1,
            vs1,
            defaulted("parent"@, opt_text_shape(), Datum::Absent, Omit::IfAbsent),
            opt_text_datum(self.parent),
        );
        let fs2 = fs1.push(defaulted("parent"@, opt_text_shape(), Datum::Absent, Omit::IfAbsent));
        let vs2 = vs1.push(opt_text_datum(self.parent));
        criterion_map_legal(self.criteria, catalog().len());
        lemma_more_fields_legal(
            catalog(),
            level,
            fs2,
            vs2,
            required("criteria"@, criterion_map_shape()),
            criterion_map_datum(self.criteria),
        );
        let fs3 = fs2.push(required("criteria"@, criterion_map_shape()));
        let vs3 = vs2.push(criterion_map_datum(self.criteria));
        text_list_list_legal(self.requirements, catalog().len());
        lemma_more_fields_legal(
            catalog(),
            level,
            fs3,
            vs3,
            defaulted(
                "requirements"@,
                text_list_list_shape(),
                Datum::List(Seq::empty()),
                Omit::IfEmpty,
            ),
            text_list_list_datum(self.requirements),
        );
        let fs4 = fs3.push(
            defaulted(
                "requirements"@,
                text_list_list_shape(),
                Datum::List(Seq::empty()),
                Omit::IfEmpty,
            )
        );
        let vs4 = vs3.push(text_list_list_datum(self.requirements));
        opt_rewards_legal(self.rewards, catalog().len());
        lemma_more_fields_legal(
            catalog(),
            level,
            fs4,
            vs4,
            defaulted("rewards"@, opt_rewards_shape(), Datum::Absent, Omit::IfAbsent),
            opt_rewards_datum(self.rewards),
        );
        let fs5 = fs4.push(
            defaulted("rewards"@, opt_rewards_shape(), Datum::Absent, Omit::IfAbsent)
        );
        let vs5 = vs4.push(opt_rewards_datum(self.rewards));
        lemma_record_legal(catalog(), level, fs5, vs5);
    }
}

/// The model of an optional value.
pub open spec fn opt_icon_datum(v: Option<Icon>) -> Datum {
    match v {
        None => Datum::Absent,
        Some(y) => Datum::Present(Box::new(y.datum())),
    }
}

/// Whether `d` is the model of an optional value of this type.
pub open spec fn opt_icon_valid(d: Datum) -> bool {
    match d {
        Datum::Absent => true,
        Datum::Present(y) => Icon::valid(*y),
        _ => false,
    }
}

/// The shape of an optional value of this type.
pub open spec fn opt_icon_shape() -> Shape {
    Shape::Optional(Box::new(Icon::shape()))
}

/// The node of an optional value of this type.
pub fn opt_icon_node() -> (n: Node)
    ensures
        n.shape() == opt_icon_shape(),
{
    Node::Optional(Box::new(Icon::node()))
}

/// An optional value in generic form.
pub fn opt_icon_to(v: &Option<Icon>) -> (x: Instance)
    ensures
        x@ == opt_icon_datum(*v),
{
    match v {
        None => Instance::Absent,
        Some(y) => Instance::Present(Box::new(Icon::to_instance(y))),
    }
}

/// The optional value that an instance stands for, if it stands for one.
pub fn opt_icon_from(x: &Instance) -> (r: Option<Option<Icon>>)
    ensures
        match r {
            Some(v) => opt_icon_datum(v) == x@,
            None => !opt_icon_valid(x@),
        },
{
    match x {
        Instance::Absent => Some(None),
        Instance::Present(y) => match Icon::from_instance(y) {
            Some(v) => Some(Some(v)),
            None => None,
        },
        _ => None,
    }
}

/// Every optional value of this type is a value of its shape.
pub proof fn opt_icon_conforms(v: Option<Icon>, level: nat)
    requires
        level == catalog().len(),
    ensures
        conforms(catalog(), level, opt_icon_shape(), opt_icon_datum(v)),
{
    match v {
        Some(y) => {
            y.lemma_conforms(level);
        },
        None => {},
    }
}

/// Every value of the shape is the model of an optional value of this type.
pub proof fn opt_icon_fits(d: Datum, level: nat)
    requires
        conforms(catalog(), level, opt_icon_shape(), d),
    ensures
        opt_icon_valid(d),
{
    match d {
        Datum::Present(y) => {
            Icon::lemma_fits(*y, level);
        },
        _ => {},
    }
}

/// Every optional value of this type can be written and read back as itself.
pub proof fn opt_icon_legal(v: Option<Icon>, level: nat)
    requires
        level == catalog().len(),
    ensures
        legal(catalog(), level, opt_icon_shape(), opt_icon_datum(v)),
        ({
                    let k = kind_of(
                        encode_spec(catalog(), level, opt_icon_shape(), opt_icon_datum(v))
                    );
                    k == Kind::Null || k == Kind::Object
                }),
{
    match v {
        Some(y) => {
            y.lemma_legal(level);
        },
        None => {},
    }
}

/// The model of an optional value.
pub open spec fn opt_display_datum(v: Option<Box<Display>>) -> Datum {
    match v {
        None => Datum::Absent,
        Some(y) => Datum::Present(Box::new((*y).datum())),
    }
}

/// Whether `d` is the model of an optional value of this type.
pub open spec fn opt_display_valid(d: Datum) -> bool {
    match d {
        Datum::Absent => true,
        Datum::Present(y) => Display::valid(*y),
        _ => false,
    }
}

/// The shape of an optional value of this type.
pub open spec fn opt_display_shape() -> Shape {
    Shape::Optional(Box::new(Display::shape()))
}

/// The node of an optional value of this type.
pub fn opt_display_node() -> (n: Node)
    ensures
        n.shape() == opt_display_shape(),
{
    Node::Optional(Box::new(Display::node()))
}

/// An optional value in generic form.
pub fn opt_display_to(v: &Option<Box<Display>>) -> (x: Instance)
    ensures
        x@ == opt_display_datum(*v),
{
    match v {
        None => Instance::Absent,
        Some(y) => Instance::Present(Box::new(Display::to_instance(&**y))),
    }
}

/// The optional value that an instance stands for, if it stands for one.
pub fn opt_display_from(x: &Instance) -> (r: Option<Option<Box<Display>>>)
    ensures
        match r {
            Some(v) => opt_display_datum(v) == x@,
            None => !opt_display_valid(x@),
        },
{
    match x {
        Instance::Absent => Some(None),
        Instance::Present(y) => match boxed(Display::from_instance(y)) {
            Some(v) => Some(Some(v)),
            None => None,
        },
        _ => None,
    }
}

/// Every optional value of this type is a value of its shape.
pub proof fn opt_display_conforms(v: Option<Box<Display>>, level: nat)
    requires
        level == catalog().len(),
    ensures
        conforms(catalog(), level, opt_display_shape(), opt_display_datum(v)),
{
    match v {
        Some(y) => {
            (*y).lemma_conforms(level);
        },
        None => {},
    }
}

/// Every value of the shape is the model of an optional value of this type.
pub proof fn opt_display_fits(d: Datum, level: nat)
    requires
        conforms(catalog(), level, opt_display_shape(), d),
    ensures
        opt_display_valid(d),
{
    match d {
        Datum::Present(y) => {
            Display::lemma_fits(*y, level);
        },
        _ => {},
    }
}

/// Every optional value of this type can be written and read back as itself.
pub proof fn opt_display_legal(v: Option<Box<Display>>, level: nat)
    requires
        level == catalog().len(),
    ensures
        legal(catalog(), level, opt_display_shape(), opt_display_datum(v)),
        ({
                    let k = kind_of(
                        encode_spec(catalog(), level, opt_display_shape(), opt_display_datum(v))
                    );
                    k == Kind::Null || k == Kind::Object
                }),
{
    match v {
        Some(y) => {
            (*y).lemma_legal(level);
        },
        None => {},
    }
}

/// The models of the entries of a map.
pub open spec fn criterion_map_entries(v: Seq<(String, Criterion)>) -> Seq<(Seq<char>, Datum)> {
    Seq::new(
        v.len(),
        |i: int|
            if 0 <= i < v.len() {
                (v[i].0@, v[i].1.datum())
            } else {
                (Seq::empty(), Datum::Absent)
            },
    )
}

/// The model of a map.
pub open spec fn criterion_map_datum(v: Vec<(String, Criterion)>) -> Datum {
    Datum::Dict(criterion_map_entries(v@))
}

/// Whether `d` is the model of a map of this type.
pub open spec fn criterion_map_valid(d: Datum) -> bool {
    d matches Datum::Dict(entries) && forall|i: int| 0 <= i < entries.len() ==> Criterion::valid(
        (#[trigger] entries[i]).1
    )
}

/// The shape of a map of this type.
pub open spec fn criterion_map_shape() -> Shape {
    Shape::Dict(Box::new(Criterion::shape()))
}

/// The node of a map of this type.
pub fn criterion_map_node() -> (n: Node)
    ensures
        n.shape() == criterion_map_shape(),
{
    Node::Dict(Box::new(Criterion::node()))
}

/// A map in generic form.
pub fn criterion_map_to(v: &Vec<(String, Criterion)>) -> (x: Instance)
    ensures
        x@ == criterion_map_datum(*v),
{
    let mut entries: Vec<(String, Instance)> = Vec::new();
    let mut k: usize = 0;
    while k < v.len()
        invariant
            k <= v.len(),
            entries.len() == k,
            forall|i: int|
                0 <= i < k ==> (#[trigger] entries[i]).0@ == v[i].0@ && entries[i].1@ == v[
                    i
                ].1.datum(),
        decreases v.len() - k,
    {
        entries.push((v[k].0.clone(), Criterion::to_instance(&v[k].1)));
        k += 1;
    }
    assert(named_data(entries@) =~= criterion_map_entries(v@));
    Instance::Dict(entries)
}

/// The entries that a run of named instances stands for, if each stands for one.
pub fn criterion_map_from_entries(entries: &Vec<(String, Instance)>) -> (
    r: Option<Vec<(String, Criterion)>>
)
    ensures
        match r {
            Some(v) => criterion_map_entries(v@) == named_data(entries@),
            None => exists|i: int| 0 <= i < entries.len() && !(
                Criterion::valid((#[trigger] named_data(entries@)[i]).1)
            ),
        },
{
    let mut out: Vec<(String, Criterion)> = Vec::new();
    let mut k: usize = 0;
    while k < entries.len()
        invariant
            k <= entries.len(),
            out.len() == k,
            forall|i: int|
                0 <= i < k ==> (#[trigger] out[i]).0@ == entries[i].0@ && out[i].1.datum() == entries[
                    i
                ].1@,
        decreases entries.len() - k,
    {
        match Criterion::from_instance(&entries[k].1) {
            Some(v) => {
                out.push((entries[k].0.clone(), v));
            },
            None => {
                assert(!(Criterion::valid(named_data(entries@)[k as int].1)));
                return None;
            },
        }
        k += 1;
    }
    assert(criterion_map_entries(out@) =~= named_data(entries@));
    Some(out)
}

/// The map that an instance stands for, if it stands for one.
pub fn criterion_map_from(x: &Instance) -> (r: Option<Vec<(String, Criterion)>>)
    ensures
        match r {
            Some(v) => criterion_map_datum(v) == x@,
            None => !criterion_map_valid(x@),
        },
{
    match x {
        Instance::Dict(entries) => {
            assert(x@->Dict_0 == named_data(entries@));
            criterion_map_from_entries(entries)
        },
        _ => None,
    }
}

/// Every map of this type is a value of its shape.
pub proof fn criterion_map_conforms(v: Vec<(String, Criterion)>, level: nat)
    ensures
        conforms(catalog(), level, criterion_map_shape(), criterion_map_datum(v)),
{
    let entries = criterion_map_entries(v@);
    assert forall|i: int| 0 <= i < entries.len() implies conforms(
        catalog(),
        catalog().len(),
        Criterion::shape(),
        (#[trigger] entries[i]).1,
    ) by {
        v@[i].1.lemma_conforms(catalog().len());
    }
}

/// Every value of the shape is the model of a map of this type.
pub proof fn criterion_map_fits(d: Datum, level: nat)
    requires
        conforms(catalog(), level, criterion_map_shape(), d),
    ensures
        criterion_map_valid(d),
{
    let entries = d->Dict_0;
    assert forall|i: int| 0 <= i < entries.len() implies Criterion::valid(
        (#[trigger] entries[i]).1
    ) by {
        Criterion::lemma_fits(entries[i].1, catalog().len());
    }
}

/// Every map of this type can be written and read back as itself.
pub proof fn criterion_map_legal(v: Vec<(String, Criterion)>, level: nat)
    ensures
        legal(catalog(), level, criterion_map_shape(), criterion_map_datum(v)),
        encode_spec(catalog(), level, criterion_map_shape(), criterion_map_datum(v)) is Object,
{
    let entries = criterion_map_entries(v@);
    assert forall|i: int| 0 <= i < entries.len() implies legal(
        catalog(),
        catalog().len(),
        Criterion::shape(),
        (#[trigger] entries[i]).1,
    ) by {
        v@[i].1.lemma_legal(catalog().len());
    }
}

/// The model of an optional value.
pub open spec fn opt_rewards_datum(v: Option<Rewards>) -> Datum {
    match v {
        None => Datum::Absent,
        Some(y) => Datum::Present(Box::new(y.datum())),
    }
}

/// Whether `d` is the model of an optional value of this type.
pub open spec fn opt_rewards_valid(d: Datum) -> bool {
    match d {
        Datum::Absent => true,
        Datum::Present(y) => Rewards::valid(*y),
        _ => false,
    }
}

/// The shape of an optional value of this type.
pub open spec fn opt_rewards_shape() -> Shape {
    Shape::Optional(Box::new(Rewards::shape()))
}

/// The node of an optional value of this type.
pub fn opt_rewards_node() -> (n: Node)
    ensures
        n.shape() == opt_rewards_shape(),
{
    Node::Optional(Box::new(Rewards::node()))
}

/// An optional value in generic form.
pub fn opt_rewards_to(v: &Option<Rewards>) -> (x: Instance)
    ensures
        x@ == opt_rewards_datum(*v),
{
    match v {
        None => Instance::Absent,
        Some(y) => Instance::Present(Box::new(Rewards::to_instance(y))),
    }
}

/// The optional value that an instance stands for, if it stands for one.
pub fn opt_rewards_from(x: &Instance) -> (r: Option<Option<Rewards>>)
    ensures
        match r {
            Some(v) => opt_rewards_datum(v) == x@,
            None => !opt_rewards_valid(x@),
        },
{
    match x {
        Instance::Absent => Some(None),
        Instance::Present(y) => match Rewards::from_instance(y) {
            Some(v) => Some(Some(v)),
            None => None,
        },
        _ => None,
    }
}

/// Every optional value of this type is a value of its shape.
pub proof fn opt_rewards_conforms(v: Option<Rewards>, level: nat)
    requires
        level == catalog().len(),
    ensures
        conforms(catalog(), level, opt_rewards_shape(), opt_rewards_datum(v)),
{
    match v {
        Some(y) => {
            y.lemma_conforms(level);
        },
        None => {},
    }
}

/// Every value of the shape is the model of an optional value of this type.
pub proof fn opt_rewards_fits(d: Datum, level: nat)
    requires
        conforms(catalog(), level, opt_rewards_shape(), d),
    ensures
        opt_rewards_valid(d),
{
    match d {
        Datum::Present(y) => {
            Rewards::lemma_fits(*y, level);
        },
        _ => {},
    }
}

/// Every optional value of this type can be written and read back as itself.
pub proof fn opt_rewards_legal(v: Option<Rewards>, level: nat)
    requires
        level == catalog().len(),
    ensures
        legal(catalog(), level, opt_rewards_shape(), opt_rewards_datum(v)),
        ({
                    let k = kind_of(
                        encode_spec(catalog(), level, opt_rewards_shape(), opt_rewards_datum(v))
                    );
                    k == Kind::Null || k == Kind::Object
                }),
{
    match v {
        Some(y) => {
            y.lemma_legal(level);
        },
        None => {},
    }
}

} // verus!
